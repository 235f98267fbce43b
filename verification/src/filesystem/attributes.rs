//! Directory entry attributes.

use vstd::prelude::*;
use crate::text::string_from_chars;

verus! {

/// Indicates whether a directory entry is read-only, a directory, a volume
/// label, etc.
#[derive(Copy, Clone, PartialEq, Eq, Structural, PartialOrd, Ord, Debug)]
pub struct Attributes(pub u8);

/// Whether all the bits of `mask` are set in `value`.
pub open spec fn has_flags(value: u8, mask: u8) -> bool {
    value & mask == mask
}

impl Attributes {
    /// Indicates this file cannot be written.
    pub const READ_ONLY: u8 = 0x01;
    /// Indicates the file is hidden.
    pub const HIDDEN: u8 = 0x02;
    /// Indicates this is a system file.
    pub const SYSTEM: u8 = 0x04;
    /// Indicates this is a volume label.
    pub const VOLUME: u8 = 0x08;
    /// Indicates this is a directory.
    pub const DIRECTORY: u8 = 0x10;
    /// Indicates this file needs archiving (i.e. has been modified since last
    /// archived).
    pub const ARCHIVE: u8 = 0x20;
    /// This set of flags indicates the file is actually a long file name
    /// fragment.
    pub const LFN: u8 = 0x0F;

    /// Create an `Attributes` value from the `u8` stored in a FAT16/FAT32
    /// directory entry.
    pub fn create_from_fat(value: u8) -> (a: Attributes)
        ensures
            a.0 == value,
    {
        Attributes(value)
    }

    /// Set the archive flag if `flag` is true; a false `flag` leaves the
    /// attributes unchanged.
    pub fn set_archive(&mut self, flag: bool)
        ensures
            final(self).0 == if flag { old(self).0 | 0x20 } else { old(self).0 },
    {
        let archive: u8 = if flag { 0x20 } else { 0x00 };
        let v = self.0;
        assert(v | 0u8 == v) by (bit_vector);
        self.0 = v | archive;
    }

    /// Does this file have the read-only attribute set?
    pub fn is_read_only(self) -> (r: bool)
        ensures
            r == has_flags(self.0, 0x01),
    {
        (self.0 & Self::READ_ONLY) == Self::READ_ONLY
    }

    /// Does this file have the hidden attribute set?
    pub fn is_hidden(self) -> (r: bool)
        ensures
            r == has_flags(self.0, 0x02),
    {
        (self.0 & Self::HIDDEN) == Self::HIDDEN
    }

    /// Does this file have the system attribute set?
    pub fn is_system(self) -> (r: bool)
        ensures
            r == has_flags(self.0, 0x04),
    {
        (self.0 & Self::SYSTEM) == Self::SYSTEM
    }

    /// Does this file have the volume attribute set?
    pub fn is_volume(self) -> (r: bool)
        ensures
            r == has_flags(self.0, 0x08),
    {
        (self.0 & Self::VOLUME) == Self::VOLUME
    }

    /// Does this entry point at a directory?
    pub fn is_directory(self) -> (r: bool)
        ensures
            r == has_flags(self.0, 0x10),
    {
        (self.0 & Self::DIRECTORY) == Self::DIRECTORY
    }

    /// Does this need archiving?
    pub fn is_archive(self) -> (r: bool)
        ensures
            r == has_flags(self.0, 0x20),
    {
        (self.0 & Self::ARCHIVE) == Self::ARCHIVE
    }

    /// Is this a long file name fragment?
    pub fn is_lfn(self) -> (r: bool)
        ensures
            r == has_flags(self.0, 0x0F),
    {
        (self.0 & Self::LFN) == Self::LFN
    }
}

/// The attributes as they are shown: `LFN` for a long file name fragment;
/// otherwise `D` for a directory or `F` for a file, followed by one letter
/// for each of the read-only, hidden, system, volume and archive flags that
/// is set, in that order.
pub open spec fn attribute_letters(value: u8) -> Seq<char> {
    if has_flags(value, 0x0F) {
        seq!['L', 'F', 'N']
    } else {
        seq![if has_flags(value, 0x10) { 'D' } else { 'F' }]
            + (if has_flags(value, 0x01) { seq!['R'] } else { Seq::empty() })
            + (if has_flags(value, 0x02) { seq!['H'] } else { Seq::empty() })
            + (if has_flags(value, 0x04) { seq!['S'] } else { Seq::empty() })
            + (if has_flags(value, 0x08) { seq!['V'] } else { Seq::empty() })
            + (if has_flags(value, 0x20) { seq!['A'] } else { Seq::empty() })
    }
}

impl Attributes {
    /// The attributes as `Debug` shows them.
    pub fn debug_string(self) -> (r: String)
        ensures
            r@ == attribute_letters(self.0),
    {
        let mut chars: Vec<char> = Vec::new();
        if self.is_lfn() {
            chars.push('L');
            chars.push('F');
            chars.push('N');
        } else {
            if self.is_directory() {
                chars.push('D');
            } else {
                chars.push('F');
            }
            if self.is_read_only() {
                chars.push('R');
            }
            if self.is_hidden() {
                chars.push('H');
            }
            if self.is_system() {
                chars.push('S');
            }
            if self.is_volume() {
                chars.push('V');
            }
            if self.is_archive() {
                chars.push('A');
            }
        }
        assert(chars@ =~= attribute_letters(self.0));
        string_from_chars(&chars)
    }
}

/// A long file name fragment carries each of the read-only, hidden, system
/// and volume flags.
pub proof fn lemma_lfn_implies_flags(value: u8)
    requires
        has_flags(value, 0x0F),
    ensures
        has_flags(value, 0x01),
        has_flags(value, 0x02),
        has_flags(value, 0x04),
        has_flags(value, 0x08),
{
    assert(value & 0x0F == 0x0F ==> {
        &&& value & 0x01 == 0x01
        &&& value & 0x02 == 0x02
        &&& value & 0x04 == 0x04
        &&& value & 0x08 == 0x08
    }) by (bit_vector);
}

/// Setting the archive flag makes `is_archive` true and keeps every other
/// flag as it was.
pub proof fn lemma_set_archive_keeps_other_flags(value: u8)
    ensures
        has_flags(value | 0x20, 0x20),
        (value | 0x20) & 0xDF == value & 0xDF,
{
    assert((value | 0x20) & 0x20 == 0x20) by (bit_vector);
    assert((value | 0x20) & 0xDF == value & 0xDF) by (bit_vector);
}

} // verus!
