//! Cluster identifiers.

use vstd::prelude::*;
use crate::text::{hex8, padded8, push_hex8, push_padded8, push_str, string_from_chars};

verus! {

/// Identifies a cluster on disk.
///
/// A cluster is a consecutive group of blocks. Each cluster has a numeric ID.
/// Some numeric IDs are reserved for special purposes.
#[derive(Copy, Clone, PartialEq, Eq, Structural, Ord, PartialOrd, Debug)]
pub struct ClusterId(pub u32);

impl ClusterId {
    /// Magic value indicating an invalid cluster value.
    pub const INVALID: u32 = 0xFFFF_FFF6;
    /// Magic value indicating a bad cluster.
    pub const BAD: u32 = 0xFFFF_FFF7;
    /// Magic value indicating an empty cluster.
    pub const EMPTY: u32 = 0x0000_0000;
    /// Magic value indicating the cluster holding the root directory (which
    /// doesn't have a number in FAT16 as there's a reserved region).
    pub const ROOT_DIR: u32 = 0xFFFF_FFFC;
    /// Magic value indicating that the cluster is allocated and is the final
    /// cluster for the file.
    pub const END_OF_FILE: u32 = 0xFFFF_FFFF;

    /// The cluster `rhs` clusters after this one.
    pub fn add(self, rhs: u32) -> (r: ClusterId)
        requires
            self.0 + rhs <= u32::MAX,
        ensures
            r.0 == self.0 + rhs,
    {
        ClusterId(self.0 + rhs)
    }

    /// Move this cluster `rhs` clusters on.
    pub fn add_assign(&mut self, rhs: u32)
        requires
            old(self).0 + rhs <= u32::MAX,
        ensures
            final(self).0 == old(self).0 + rhs,
    {
        self.0 = self.0 + rhs;
    }
}

/// How `Debug` shows a cluster: its reserved name, or its number as eight
/// hexadecimal digits, between `ClusterId(` and `)`.
pub open spec fn cluster_debug_chars(v: u32) -> Seq<char> {
    "ClusterId("@ + (if v == 0xFFFF_FFF6 {
        padded8(seq!['I', 'N', 'V', 'A', 'L', 'I', 'D'])
    } else if v == 0xFFFF_FFF7 {
        padded8(seq!['B', 'A', 'D'])
    } else if v == 0 {
        padded8(seq!['E', 'M', 'P', 'T', 'Y'])
    } else if v == 0xFFFF_FFFC {
        padded8(seq!['R', 'O', 'O', 'T'])
    } else if v == 0xFFFF_FFFF {
        padded8(seq!['E', 'O', 'F'])
    } else {
        hex8(v)
    }) + ")"@
}

/// Append the `Debug` form of cluster `c`.
pub(crate) fn push_cluster_debug(chars: &mut Vec<char>, c: ClusterId)
    ensures
        final(chars)@ == old(chars)@ + cluster_debug_chars(c.0),
{
    push_str(chars, "ClusterId(");
    let v = c.0;
    if v == ClusterId::INVALID {
        let label: [char; 7] = ['I', 'N', 'V', 'A', 'L', 'I', 'D'];
        push_padded8(chars, &label);
    } else if v == ClusterId::BAD {
        let label: [char; 3] = ['B', 'A', 'D'];
        push_padded8(chars, &label);
    } else if v == ClusterId::EMPTY {
        let label: [char; 5] = ['E', 'M', 'P', 'T', 'Y'];
        push_padded8(chars, &label);
    } else if v == ClusterId::ROOT_DIR {
        let label: [char; 4] = ['R', 'O', 'O', 'T'];
        push_padded8(chars, &label);
    } else if v == ClusterId::END_OF_FILE {
        let label: [char; 3] = ['E', 'O', 'F'];
        push_padded8(chars, &label);
    } else {
        push_hex8(chars, v);
    }
    push_str(chars, ")");
    assert(final(chars)@ =~= old(chars)@ + cluster_debug_chars(v));
}

impl ClusterId {
    /// The cluster as `Debug` shows it.
    pub fn debug_string(&self) -> (r: String)
        ensures
            r@ == cluster_debug_chars(self.0),
    {
        let mut chars: Vec<char> = Vec::new();
        push_cluster_debug(&mut chars, *self);
        string_from_chars(&chars)
    }
}

/// Another name for a cluster identifier.
pub type Cluster = ClusterId;

} // verus!
