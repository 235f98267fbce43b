//! Handles and the handle generator.

use vstd::prelude::*;

verus! {

/// Unique ID used to identify things in the open Volume/File/Directory lists.
#[derive(Clone, Copy, PartialEq, Eq, Structural, Debug)]
pub struct Handle(pub u32);

/// A handle generator.
///
/// This object returns a different ID on each call, until it wraps after
/// `2**32` IDs.
#[derive(Debug)]
pub struct HandleGenerator {
    next_id: u32,
}

/// The ID handed out by a generator created with `offset` on its `n`-th call
/// (counting from zero).
pub open spec fn nth_id(offset: u32, n: nat) -> u32 {
    ((offset + n) % 0x1_0000_0000) as u32
}

impl HandleGenerator {
    /// The ID that the next call of `generate` hands out.
    pub closed spec fn next(&self) -> u32 {
        self.next_id
    }

    /// Create a new generator of Handles.
    pub fn new(offset: u32) -> (g: HandleGenerator)
        ensures
            g.next() == offset,
    {
        HandleGenerator { next_id: offset }
    }

    /// Generate a new, unique [`Handle`].
    pub fn generate(&mut self) -> (h: Handle)
        ensures
            h.0 == old(self).next(),
            final(self).next() == nth_id(old(self).next(), 1),
    {
        let id = self.next_id;
        self.next_id = self.next_id.wrapping_add(1);
        Handle(id)
    }
}

/// Generating one ID after another moves one step along the sequence of IDs.
pub proof fn lemma_nth_id_step(offset: u32, n: nat)
    ensures
        nth_id(nth_id(offset, n), 1) == nth_id(offset, n + 1),
{
}

/// Any `2**32` consecutive IDs handed out by one generator are all different.
pub proof fn lemma_ids_distinct(offset: u32, m: nat, n: nat)
    requires
        m < n < m + 0x1_0000_0000,
    ensures
        nth_id(offset, m) != nth_id(offset, n),
{
    let a = offset + m;
    let b = offset + n;
    assert(0 < b - a < 0x1_0000_0000);
    assert(a % 0x1_0000_0000 != b % 0x1_0000_0000) by (nonlinear_arith)
        requires
            0 <= a,
            0 < b - a < 0x1_0000_0000,
    ;
}


/// The next ID of a generator made with `offset` once `k` IDs were handed
/// out: each call of `generate` moves it on by one, wrapping around.
pub open spec fn next_after_calls(offset: u32, k: nat) -> u32
    decreases k,
{
    if k == 0 {
        offset
    } else {
        nth_id(next_after_calls(offset, (k - 1) as nat), 1)
    }
}

/// The `k`-th call (from 0) of `generate` on a generator made with
/// `HandleGenerator::new(offset)` hands out `offset` plus `k`, wrapping
/// around at `2**32`; so any `2**32` consecutive handles it hands out are
/// all different.
pub proof fn lemma_generated_handles(offset: u32, k: nat, m: nat)
    ensures
        next_after_calls(offset, k) == nth_id(offset, k),
        next_after_calls(offset, k) == (offset + k) % 0x1_0000_0000,
        m < k < m + 0x1_0000_0000 ==> next_after_calls(offset, m) != next_after_calls(offset, k),
    decreases k,
{
    if k > 0 {
        lemma_generated_handles(offset, (k - 1) as nat, m);
        lemma_nth_id_step(offset, (k - 1) as nat);
    }
    lemma_generated_handles_at(offset, m);
    if m < k < m + 0x1_0000_0000 {
        lemma_ids_distinct(offset, m, k);
    }
}

/// The next ID after `m` calls, told directly.
proof fn lemma_generated_handles_at(offset: u32, m: nat)
    ensures
        next_after_calls(offset, m) == nth_id(offset, m),
    decreases m,
{
    if m > 0 {
        lemma_generated_handles_at(offset, (m - 1) as nat);
        lemma_nth_id_step(offset, (m - 1) as nat);
    }
}

} // verus!
