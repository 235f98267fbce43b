//! Blocks, block indices and the block device abstraction.

use vstd::prelude::*;

verus! {

/// Length of a block (sector) in bytes.
pub const BLOCK_LEN: usize = 512;

/// Length of a block in bytes, as a `u32`.
pub const BLOCK_LEN_U32: u32 = 512;

/// A standard 512 byte block (also known as a sector).
#[derive(Clone, Copy)]
pub struct Block {
    /// The 512 bytes in this block (or sector).
    pub contents: [u8; 512],
}

impl Block {
    /// Create a new block full of zeros.
    pub fn new() -> (b: Block)
        ensures
            forall|i: int| 0 <= i < 512 ==> b.contents@[i] == 0,
    {
        Block { contents: [0u8; 512] }
    }
}

/// The linear numeric address of a block (or sector).
#[derive(Clone, Copy, PartialEq, Eq, Structural, Debug)]
pub struct BlockIdx(pub u32);

/// A number of blocks (or sectors).
#[derive(Clone, Copy, PartialEq, Eq, Structural, Debug)]
pub struct BlockCount(pub u32);

impl BlockCount {
    /// How many blocks are needed to hold `byte_count` bytes.
    pub fn from_bytes(byte_count: u32) -> (r: BlockCount)
        ensures
            r.0 == (byte_count + 511) / 512,
    {
        let mut count: u32 = byte_count / BLOCK_LEN_U32;
        if count * BLOCK_LEN_U32 != byte_count {
            count = count + 1;
        }
        BlockCount(count)
    }

    /// This count plus the whole blocks that lie before byte `offset`.
    pub fn offset_bytes(self, offset: u32) -> (r: BlockCount)
        requires
            self.0 + offset / 512 <= u32::MAX,
        ensures
            r.0 == self.0 + offset / 512,
    {
        BlockCount(self.0 + offset / BLOCK_LEN_U32)
    }

    /// The sum of two counts.
    pub fn plus(self, other: BlockCount) -> (r: BlockCount)
        requires
            self.0 + other.0 <= u32::MAX,
        ensures
            r.0 == self.0 + other.0,
    {
        BlockCount(self.0 + other.0)
    }
}

impl BlockIdx {
    /// The block `count` blocks after this one.
    pub fn plus(self, count: BlockCount) -> (r: BlockIdx)
        requires
            self.0 + count.0 <= u32::MAX,
        ensures
            r.0 == self.0 + count.0,
    {
        BlockIdx(self.0 + count.0)
    }
}

/// The byte offset, from the start of the volume, at which block
/// `block_index` begins.
pub fn block_index_into_bytes(block_index: BlockIdx) -> (r: u64)
    ensures
        r == block_index.0 * 512,
{
    block_index.0 as u64 * 512
}

/// How many blocks are required to hold `byte_count` bytes.
pub fn block_count_from_bytes(byte_count: u64) -> (r: BlockCount)
    requires
        (byte_count + 511) / 512 <= u32::MAX,
    ensures
        r.0 == (byte_count + 511) / 512,
{
    let mut count: u64 = byte_count / 512;
    if count * 512 != byte_count {
        count = count + 1;
    }
    BlockCount(count as u32)
}

/// `base` plus the number of whole blocks that lie before the byte at
/// `offset`.
pub fn block_count_offset_bytes(base: BlockCount, offset: u64) -> (r: BlockCount)
    requires
        base.0 + offset / 512 <= u32::MAX,
    ensures
        r.0 == base.0 + offset / 512,
{
    BlockCount((base.0 as u64 + offset / 512) as u32)
}

/// Walks the block indices from a start block through an end block,
/// both included.
pub struct BlockIter {
    inclusive_end: BlockIdx,
    current: BlockIdx,
    finished: bool,
}

impl BlockIter {
    /// The block indices that are still to come, in order.
    pub closed spec fn remaining(&self) -> Seq<BlockIdx> {
        if self.finished || self.current.0 > self.inclusive_end.0 {
            Seq::empty()
        } else {
            Seq::new(
                (self.inclusive_end.0 - self.current.0 + 1) as nat,
                |i: int| BlockIdx((self.current.0 + i) as u32),
            )
        }
    }

    /// Create a new `BlockIter`, from the given start block, through (and
    /// including) the given end block.
    pub fn new(start: BlockIdx, inclusive_end: BlockIdx) -> (r: BlockIter)
        ensures
            r.remaining() == (if start.0 <= inclusive_end.0 {
                Seq::new(
                    (inclusive_end.0 - start.0 + 1) as nat,
                    |i: int| BlockIdx((start.0 + i) as u32),
                )
            } else {
                Seq::empty()
            }),
    {
        BlockIter { inclusive_end, current: start, finished: false }
    }

    /// The next block index, or `None` once the end block has been given.
    pub fn next(&mut self) -> (r: Option<BlockIdx>)
        ensures
            old(self).remaining().len() == 0 ==> r is None && final(self).remaining().len() == 0,
            old(self).remaining().len() > 0 ==> r == Some(old(self).remaining()[0])
                && final(self).remaining() == old(self).remaining().drop_first(),
    {
        if self.finished || self.current.0 > self.inclusive_end.0 {
            None
        } else {
            let this = self.current;
            if self.current.0 == self.inclusive_end.0 {
                self.finished = true;
            } else {
                self.current = BlockIdx(self.current.0 + 1);
            }
            proof {
                if !self.finished {
                    assert(self.remaining() =~= old(self).remaining().drop_first());
                }
            }
            Some(this)
        }
    }
}

/// A device which can read and write whole 512-byte blocks.
///
/// Its contents are modelled as a sequence of blocks; reading a block past
/// the end of that sequence fails.
pub trait BlockDevice {
    /// The errors that the device can return.
    type Error;

    /// The contents of the device, block by block; the contracts below
    /// speak of it. A device verified with this crate defines it. Outside
    /// this module the body here is hidden, so nothing proved of the library
    /// rests on it; it only stands for devices written outside Verus, which
    /// cannot define a spec function and so keep this one (no blocks, and
    /// neither `reads_ok` nor `writes_ok` promised).
    closed spec fn blocks(&self) -> Seq<Seq<u8>> {
        Seq::empty()
    }

    /// Whether every read of blocks that the device holds succeeds. A device
    /// that promises this defines it to be true; outside this module the
    /// default here is hidden, so what is proved holds whether or not a
    /// device promises it.
    closed spec fn reads_ok(&self) -> bool {
        false
    }

    /// Whether every write of blocks that the device holds succeeds, like
    /// `reads_ok` for reads.
    closed spec fn writes_ok(&self) -> bool {
        false
    }

    /// Read one or more blocks, starting at the given block index.
    fn read(&self, blocks: &mut [Block], start_block_idx: BlockIdx) -> (r: Result<(), Self::Error>)
        ensures
            final(blocks)@.len() == old(blocks)@.len(),
            self.reads_ok() && start_block_idx.0 + old(blocks)@.len() <= self.blocks().len() ==> r is Ok,
            r is Ok ==> start_block_idx.0 + old(blocks)@.len() <= self.blocks().len(),
            r is Ok ==> forall|i: int|
                0 <= i < old(blocks)@.len() ==> #[trigger] final(blocks)@[i].contents@
                    == self.blocks()[start_block_idx.0 + i],
    ;

    /// Write one or more blocks, starting at the given block index.
    fn write(&mut self, blocks: &[Block], start_block_idx: BlockIdx) -> (r: Result<(), Self::Error>)
        ensures
            final(self).blocks().len() == old(self).blocks().len(),
            old(self).writes_ok() && start_block_idx.0 + blocks@.len() <= old(self).blocks().len()
                ==> r is Ok,
            final(self).reads_ok() == old(self).reads_ok(),
            final(self).writes_ok() == old(self).writes_ok(),
            r is Ok ==> start_block_idx.0 + blocks@.len() <= old(self).blocks().len(),
            r is Ok ==> forall|i: int|
                0 <= i < old(self).blocks().len() ==> #[trigger] final(self).blocks()[i] == if start_block_idx.0
                    <= i < start_block_idx.0 + blocks@.len() {
                    blocks@[i - start_block_idx.0].contents@
                } else {
                    old(self).blocks()[i]
                },
    ;

    /// Determine how many blocks this device can hold.
    fn num_blocks(&self) -> (r: Result<BlockCount, Self::Error>)
        ensures
            r matches Ok(n) ==> n.0 == self.blocks().len(),
    ;
}


/// A caching layer for a block device: it holds one block.
///
/// A block fetched with [`BlockCache::read_mut`] may be changed in place; it
/// reaches the device only through [`BlockCache::write_back`].
pub struct BlockCache<D> {
    block_device: D,
    block: Block,
    block_idx: Option<BlockIdx>,
}

impl<D: BlockDevice> BlockCache<D> {
    /// The index of the block that the cache holds, if any.
    pub closed spec fn cached_idx(&self) -> Option<BlockIdx> {
        self.block_idx
    }

    /// The bytes of the cached block.
    pub closed spec fn cached(&self) -> Seq<u8> {
        self.block.contents@
    }

    /// The device behind the cache.
    pub closed spec fn device(&self) -> D {
        self.block_device
    }

    /// The cached block, if any, holds what the device holds at its index.
    pub open spec fn coherent(&self) -> bool {
        self.cached_idx() matches Some(idx) ==> (idx.0 < self.device().blocks().len()
            && self.cached() == self.device().blocks()[idx.0 as int])
    }

    /// Create a new block cache, holding no block.
    pub fn new(block_device: D) -> (r: Self)
        ensures
            r.device() == block_device,
            r.cached_idx() is None,
            r.cached().len() == 512,
            r.coherent(),
    {
        BlockCache { block_device, block: Block::new(), block_idx: None }
    }

    /// Read a block, and return a reference to it. The device is asked only
    /// when the cache does not already hold that block.
    pub fn read(&mut self, block_idx: BlockIdx) -> (r: Result<&Block, D::Error>)
        ensures
            final(self).device() == old(self).device(),
            old(self).cached_idx() == Some(block_idx) ==> *final(self) == *old(self) && r is Ok,
            r is Ok ==> final(self).cached_idx() == Some(block_idx),
            r matches Ok(b) ==> b.contents@ == final(self).cached(),
            old(self).cached_idx() != Some(block_idx) ==> (r is Ok ==> block_idx.0
                < old(self).device().blocks().len() && final(self).cached() == old(
                self,
            ).device().blocks()[block_idx.0 as int]),
            r is Err ==> final(self).cached_idx() is None,
            old(self).coherent() ==> final(self).coherent(),
            old(self).coherent() ==> (r matches Ok(b) ==> b.contents@ == old(
                self,
            ).device().blocks()[block_idx.0 as int]),
    {
        if self.block_idx != Some(block_idx) {
            self.block_idx = None;
            let mut buf = [Block::new()];
            match self.block_device.read(&mut buf, block_idx) {
                Ok(()) => {},
                Err(e) => return Err(e),
            }
            self.block = buf[0];
            self.block_idx = Some(block_idx);
        }
        Ok(&self.block)
    }

    /// Read a block, and return a mutable reference to it. The device is
    /// asked only when the cache does not already hold that block; what the
    /// caller writes through the reference stays in the cache.
    pub fn read_mut(&mut self, block_idx: BlockIdx) -> (r: Result<&mut Block, D::Error>)
        ensures
            final(self).device() == old(self).device(),
            r is Ok ==> final(self).cached_idx() == Some(block_idx),
            r is Err ==> final(self).cached_idx() is None,
            r matches Ok(b) ==> final(self).cached() == final(b).contents@,
            r matches Ok(b) ==> (if old(self).cached_idx() == Some(block_idx) {
                b.contents@ == old(self).cached()
            } else {
                block_idx.0 < old(self).device().blocks().len() && b.contents@ == old(
                    self,
                ).device().blocks()[block_idx.0 as int]
            }),
            old(self).cached_idx() == Some(block_idx) ==> r is Ok,
    {
        if self.block_idx != Some(block_idx) {
            self.block_idx = None;
            let mut buf = [Block::new()];
            match self.block_device.read(&mut buf, block_idx) {
                Ok(()) => {},
                Err(e) => return Err(e),
            }
            self.block = buf[0];
            self.block_idx = Some(block_idx);
        }
        Ok(&mut self.block)
    }

    /// Write the cached block back to the index it was read from.
    pub fn write_back(&mut self) -> (r: Result<(), D::Error>)
        requires
            old(self).cached_idx() is Some,
        ensures
            final(self).cached_idx() == old(self).cached_idx(),
            final(self).cached() == old(self).cached(),
            final(self).device().blocks().len() == old(self).device().blocks().len(),
            r is Ok ==> old(self).cached_idx().unwrap().0 < old(self).device().blocks().len()
                && final(self).device().blocks() == old(self).device().blocks().update(
                old(self).cached_idx().unwrap().0 as int,
                old(self).cached(),
            ),
            r is Ok ==> final(self).coherent(),
    {
        let idx = match self.block_idx {
            Some(idx) => idx,
            None => BlockIdx(0),
        };
        let buf = [self.block];
        let r = self.block_device.write(&buf, idx);
        proof {
            if r is Ok {
                assert(final(self).device().blocks() =~= old(self).device().blocks().update(
                    idx.0 as int,
                    old(self).cached(),
                ));
            }
        }
        r
    }

    /// Write the cached block back to the index it was read from, and then
    /// to `duplicate` as well (a second copy of the FAT, say).
    pub fn write_back_with_duplicate(&mut self, duplicate: BlockIdx) -> (r: Result<(), D::Error>)
        requires
            old(self).cached_idx() is Some,
        ensures
            final(self).cached_idx() == old(self).cached_idx(),
            final(self).cached() == old(self).cached(),
            final(self).device().blocks().len() == old(self).device().blocks().len(),
            r is Ok ==> old(self).cached_idx().unwrap().0 < old(self).device().blocks().len()
                && duplicate.0 < old(self).device().blocks().len() && final(self).device().blocks()
                == old(self).device().blocks().update(
                old(self).cached_idx().unwrap().0 as int,
                old(self).cached(),
            ).update(duplicate.0 as int, old(self).cached()),
    {
        match self.write_back() {
            Ok(()) => {},
            Err(e) => return Err(e),
        }
        let ghost mid = self.device().blocks();
        let buf = [self.block];
        let r = self.block_device.write(&buf, duplicate);
        proof {
            if r is Ok {
                assert(final(self).device().blocks() =~= mid.update(
                    duplicate.0 as int,
                    old(self).cached(),
                ));
            }
        }
        r
    }

    /// Take a block of zeros to fill in for index `block_idx`; nothing is
    /// read from the device.
    pub fn blank_mut(&mut self, block_idx: BlockIdx) -> (r: &mut Block)
        ensures
            final(self).device() == old(self).device(),
            final(self).cached_idx() == Some(block_idx),
            r.contents@ == Seq::new(512, |i: int| 0u8),
            final(self).cached() == final(r).contents@,
    {
        self.block_idx = Some(block_idx);
        self.block = Block::new();
        assert(self.block.contents@ =~= Seq::new(512, |i: int| 0u8));
        &mut self.block
    }

    /// Access the block device. The cache forgets its block, since the
    /// caller may change the device behind it.
    pub fn block_device(&mut self) -> (r: &mut D)
        ensures
            *r == old(self).device(),
            final(self).device() == *final(r),
            final(self).cached_idx() is None,
    {
        self.block_idx = None;
        &mut self.block_device
    }

    /// Get the block device back.
    pub fn free(self) -> (r: D)
        ensures
            r == self.device(),
    {
        self.block_device
    }
}

} // verus!
