//! Search IDs and their generator.

use vstd::prelude::*;

verus! {

/// Unique ID used to search for files and directories in the open Volume/File/Directory lists.
#[derive(Clone, Copy, PartialEq, Eq, Structural, Debug)]
pub struct SearchId(pub u32);

/// A search ID generator.
///
/// This object returns a different ID on each call, until it wraps after
/// `2**32` IDs.
#[derive(Debug)]
pub struct SearchIdGenerator {
    next_id: u32,
}

/// The ID handed out by a generator created with `offset` on its `n`-th call
/// (counting from zero).
pub open spec fn nth_search_id(offset: u32, n: nat) -> u32 {
    ((offset + n) % 0x1_0000_0000) as u32
}

impl SearchIdGenerator {
    /// The ID that the next call of `get` hands out.
    pub closed spec fn next(&self) -> u32 {
        self.next_id
    }

    /// Create a new generator of search IDs.
    pub fn new(offset: u32) -> (g: SearchIdGenerator)
        ensures
            g.next() == offset,
    {
        SearchIdGenerator { next_id: offset }
    }

    /// Generate a new, unique [`SearchId`].
    pub fn get(&mut self) -> (h: SearchId)
        ensures
            h.0 == old(self).next(),
            final(self).next() == nth_search_id(old(self).next(), 1),
    {
        let id = self.next_id;
        self.next_id = self.next_id.wrapping_add(1);
        SearchId(id)
    }
}

/// Generating one ID after another moves one step along the sequence of IDs.
pub proof fn lemma_nth_search_id_step(offset: u32, n: nat)
    ensures
        nth_search_id(nth_search_id(offset, n), 1) == nth_search_id(offset, n + 1),
{
}

/// Any `2**32` consecutive IDs handed out by one generator are all different.
pub proof fn lemma_search_ids_distinct(offset: u32, m: nat, n: nat)
    requires
        m < n < m + 0x1_0000_0000,
    ensures
        nth_search_id(offset, m) != nth_search_id(offset, n),
{
    let a = offset + m;
    let b = offset + n;
    assert(0 < b - a < 0x1_0000_0000);
    assert(a % 0x1_0000_0000 != b % 0x1_0000_0000) by (nonlinear_arith)
        requires
            0 <= a,
            0 < b - a < 0x1_0000_0000,
    ;
}

} // verus!
