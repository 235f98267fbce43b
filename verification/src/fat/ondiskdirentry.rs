//! Directory entries as stored on disk.

use crate::blockdevice::BlockIdx;
use crate::bytes::{le16, le32, read_u16_le, read_u32_le};
use crate::fat::FatType;
use crate::filesystem::attributes::{has_flags, Attributes};
use crate::filesystem::cluster::{cluster_debug_chars, push_cluster_debug, ClusterId};
use crate::filesystem::directory::{entry_bytes, DirEntry};
use crate::filesystem::filename::ShortFileName;
use crate::filesystem::lfn::char_from_u32;
use crate::filesystem::timestamp::{
    fat_bytes, fat_date_word, fat_representable, fat_time_word, fat_timestamp,
    lemma_fat_bytes_words, lemma_fat_words_roundtrip, Timestamp,
};
use crate::text::{bool_chars, decimal, push_bool, push_decimal, push_str, string_from_chars};
use vstd::prelude::*;

verus! {

/// The offsets of the 13 UCS-2 characters in a long file name entry.
pub open spec fn lfn_offsets() -> Seq<int> {
    seq![1int, 3, 5, 7, 9, 14, 16, 18, 20, 22, 24, 28, 30]
}

/// The `k`-th UCS-2 character of a long file name entry.
pub open spec fn lfn_unit(d: Seq<u8>, k: int) -> int {
    le16(d, lfn_offsets()[k])
}

/// Whether none of the 13 characters of a long file name entry is a UTF-16
/// surrogate, so that each is a `char`.
pub open spec fn lfn_units_are_chars(d: Seq<u8>) -> bool {
    forall|k: int| 0 <= k < 13 ==> !(0xD800 <= #[trigger] lfn_unit(d, k) <= 0xDFFF)
}

/// The cluster that a directory entry starts at, as read: on FAT32 the high
/// half (offset 20) and the low half (offset 26), on FAT16 the low half
/// alone. A directory whose cluster is zero (the `..` entry of a directory
/// in the root) means the root directory.
pub open spec fn entry_cluster(d: Seq<u8>, fat_type: FatType) -> u32 {
    let raw = if fat_type == FatType::Fat32 {
        le16(d, 20) * 65536 + le16(d, 26)
    } else {
        le16(d, 26)
    };
    if raw == 0 && has_flags(d[11], 0x10) {
        ClusterId::ROOT_DIR
    } else {
        raw as u32
    }
}

/// Whether `e` is the directory entry that the 32 bytes `d` describe.
pub open spec fn is_entry_of(
    e: DirEntry,
    d: Seq<u8>,
    fat_type: FatType,
    entry_block: BlockIdx,
    entry_offset: u32,
) -> bool {
    &&& e.name.contents@ == d.take(11)
    &&& e.attributes.0 == d[11]
    &&& e.ctime == fat_timestamp(le16(d, 16) as u16, le16(d, 14) as u16)
    &&& e.mtime == fat_timestamp(le16(d, 24) as u16, le16(d, 22) as u16)
    &&& e.cluster.0 == entry_cluster(d, fat_type)
    &&& e.size == le32(d, 28)
    &&& e.entry_block == entry_block
    &&& e.entry_offset == entry_offset
}

/// Represents a 32-byte directory entry as stored on-disk in a directory
/// file. This is the same for FAT16 and FAT32 (except FAT16 doesn't use
/// first_cluster_hi).
pub struct OnDiskDirEntry<'a> {
    data: &'a [u8],
}

impl<'a> OnDiskDirEntry<'a> {
    /// Length of an entry in bytes.
    pub const LEN: usize = 32;
    /// Length of an entry in bytes, as a `u32`.
    pub const LEN_U32: u32 = 32;

    /// The bytes of the entry.
    pub closed spec fn bytes(&self) -> Seq<u8> {
        self.data@
    }

    /// Create a new on-disk directory entry from the bytes of a directory
    /// file: normally the 32 bytes of one entry. Each method asks for the
    /// bytes that it reads.
    pub fn new(data: &[u8]) -> (r: OnDiskDirEntry)
        ensures
            r.bytes() == data@,
    {
        OnDiskDirEntry { data }
    }

    /// The raw attribute byte (offset 11).
    pub fn raw_attr(&self) -> (r: u8)
        requires
            self.bytes().len() >= 32,
        ensures
            r == self.bytes()[11],
    {
        self.data[11]
    }

    /// Creation time (offset 14).
    pub fn create_time(&self) -> (r: u16)
        requires
            self.bytes().len() >= 32,
        ensures
            r == le16(self.bytes(), 14),
    {
        read_u16_le(self.data, 14)
    }

    /// Creation date (offset 16).
    pub fn create_date(&self) -> (r: u16)
        requires
            self.bytes().len() >= 32,
        ensures
            r == le16(self.bytes(), 16),
    {
        read_u16_le(self.data, 16)
    }

    /// Last access date (offset 18).
    pub fn last_access_data(&self) -> (r: u16)
        requires
            self.bytes().len() >= 32,
        ensures
            r == le16(self.bytes(), 18),
    {
        read_u16_le(self.data, 18)
    }

    /// High half of the first cluster (offset 20).
    pub fn first_cluster_hi(&self) -> (r: u16)
        requires
            self.bytes().len() >= 32,
        ensures
            r == le16(self.bytes(), 20),
    {
        read_u16_le(self.data, 20)
    }

    /// Modification time (offset 22).
    pub fn write_time(&self) -> (r: u16)
        requires
            self.bytes().len() >= 32,
        ensures
            r == le16(self.bytes(), 22),
    {
        read_u16_le(self.data, 22)
    }

    /// Modification date (offset 24).
    pub fn write_date(&self) -> (r: u16)
        requires
            self.bytes().len() >= 32,
        ensures
            r == le16(self.bytes(), 24),
    {
        read_u16_le(self.data, 24)
    }

    /// Low half of the first cluster (offset 26).
    pub fn first_cluster_lo(&self) -> (r: u16)
        requires
            self.bytes().len() >= 32,
        ensures
            r == le16(self.bytes(), 26),
    {
        read_u16_le(self.data, 26)
    }

    /// File size (offset 28).
    pub fn file_size(&self) -> (r: u32)
        requires
            self.bytes().len() >= 32,
        ensures
            r == le32(self.bytes(), 28),
    {
        read_u32_le(self.data, 28)
    }

    /// Is this the last entry in the directory?
    pub fn is_end(&self) -> (r: bool)
        requires
            self.bytes().len() >= 1,
        ensures
            r == (self.bytes()[0] == 0),
    {
        self.data[0] == 0x00
    }

    /// Is this a valid entry (neither the end marker nor a deleted entry)?
    pub fn is_valid(&self) -> (r: bool)
        requires
            self.bytes().len() >= 1,
        ensures
            r == (self.bytes()[0] != 0 && self.bytes()[0] != 0xE5),
    {
        !self.is_end() && (self.data[0] != 0xE5)
    }

    /// Is this a Long Filename entry?
    pub fn is_lfn(&self) -> (r: bool)
        requires
            self.bytes().len() >= 32,
        ensures
            r == has_flags(self.bytes()[11], 0x0F),
    {
        let attributes = Attributes::create_from_fat(self.raw_attr());
        attributes.is_lfn()
    }

    /// If this is an LFN, get the contents so we can re-assemble the
    /// filename: whether this is the first (last-placed) fragment, its
    /// sequence number, and its 13 characters.
    pub fn lfn_contents(&self) -> (r: Option<(bool, u8, [char; 13])>)
        requires
            self.bytes().len() >= 32,
            has_flags(self.bytes()[11], 0x0F) ==> lfn_units_are_chars(self.bytes()),
        ensures
            r is Some <==> has_flags(self.bytes()[11], 0x0F),
            r matches Some((start, seq, chars)) ==> {
                &&& start == ((self.bytes()[0] / 64) % 2 == 1)
                &&& seq == self.bytes()[0] % 32
                &&& forall|k: int| 0 <= k < 13 ==> chars@[k] as u32 == lfn_unit(self.bytes(), k)
            },
    {
        if self.is_lfn() {
            let mut buffer = [' '; 13];
            let b0 = self.data[0];
            let is_start = (b0 & 0x40) != 0;
            let sequence = b0 & 0x1F;
            assert(((b0 & 0x40) != 0) == ((b0 / 64) % 2 == 1)) by (bit_vector);
            assert(b0 & 0x1F == b0 % 32) by (bit_vector);
            let offsets: [usize; 13] = [1, 3, 5, 7, 9, 14, 16, 18, 20, 22, 24, 28, 30];
            assert(offsets@ =~= lfn_offsets().map_values(|o: int| o as usize));
            let mut k: usize = 0;
            while k < 13
                invariant
                    k <= 13,
                    self.data@.len() >= 32,
                    offsets@ == lfn_offsets().map_values(|o: int| o as usize),
                    lfn_units_are_chars(self.bytes()),
                    forall|j: int| 0 <= j < k ==> buffer@[j] as u32 == lfn_unit(self.bytes(), j),
                decreases 13 - k,
            {
                let unit = read_u16_le(self.data, offsets[k]);
                assert(!(0xD800 <= lfn_unit(self.bytes(), k as int) <= 0xDFFF));
                match char_from_u32(unit as u32) {
                    Some(c) => {
                        buffer[k] = c;
                    },
                    None => {
                        assert(false);
                    },
                }
                k = k + 1;
            }
            Some((is_start, sequence, buffer))
        } else {
            None
        }
    }

    /// Does this on-disk entry match the given filename?
    pub fn matches(&self, sfn: &ShortFileName) -> (r: bool)
        requires
            self.bytes().len() >= 11,
        ensures
            r == (self.bytes().take(11) == sfn.contents@),
    {
        let mut i: usize = 0;
        while i < 11
            invariant
                i <= 11,
                self.data@.len() >= 11,
                forall|j: int| 0 <= j < i ==> self.data@[j] == sfn.contents@[j],
            decreases 11 - i,
        {
            if self.data[i] != sfn.contents[i] {
                assert(self.bytes().take(11)[i as int] != sfn.contents@[i as int]);
                return false;
            }
            i = i + 1;
        }
        assert(self.bytes().take(11) =~= sfn.contents@);
        true
    }

    /// Which cluster, if any, does this file start at? Assumes this is from
    /// a FAT32 volume.
    pub fn first_cluster_fat32(&self) -> (r: ClusterId)
        requires
            self.bytes().len() >= 32,
        ensures
            r.0 == le16(self.bytes(), 20) * 65536 + le16(self.bytes(), 26),
    {
        let hi = self.first_cluster_hi() as u32;
        let lo = self.first_cluster_lo() as u32;
        assert(hi < 65536 && lo < 65536 ==> (hi << 16) | lo == hi * 65536 + lo) by (bit_vector);
        ClusterId((hi << 16) | lo)
    }

    /// Which cluster, if any, does this file start at? Assumes this is from
    /// a FAT16 volume.
    pub fn first_cluster_fat16(&self) -> (r: ClusterId)
        requires
            self.bytes().len() >= 32,
        ensures
            r.0 == le16(self.bytes(), 26),
    {
        ClusterId(self.first_cluster_lo() as u32)
    }

    /// Convert the on-disk format into a DirEntry.
    pub fn get_entry(&self, fat_type: FatType, entry_block: BlockIdx, entry_offset: u32) -> (r:
        DirEntry)
        requires
            self.bytes().len() >= 32,
        ensures
            is_entry_of(r, self.bytes(), fat_type, entry_block, entry_offset),
    {
        let attributes = Attributes::create_from_fat(self.raw_attr());
        let raw = if fat_type == FatType::Fat32 {
            self.first_cluster_fat32()
        } else {
            self.first_cluster_fat16()
        };
        let cluster = if raw.0 == ClusterId::EMPTY && attributes.is_directory() {
            ClusterId(ClusterId::ROOT_DIR)
        } else {
            raw
        };
        let mut contents = [0u8; 11];
        let mut i: usize = 0;
        while i < 11
            invariant
                i <= 11,
                self.data@.len() >= 32,
                forall|j: int| 0 <= j < i ==> contents@[j] == self.data@[j],
            decreases 11 - i,
        {
            contents[i] = self.data[i];
            i = i + 1;
        }
        assert(contents@ =~= self.bytes().take(11));
        DirEntry {
            name: ShortFileName { contents },
            mtime: Timestamp::from_fat(self.write_date(), self.write_time()),
            ctime: Timestamp::from_fat(self.create_date(), self.create_time()),
            attributes,
            cluster,
            size: self.file_size(),
            entry_block,
            entry_offset,
        }
    }
}

/// Whether the 32 bytes `d` hold the fields of `e` where a directory
/// entry keeps them.
pub open spec fn holds_entry_fields(d: Seq<u8>, e: DirEntry, fat_type: FatType) -> bool {
    let ct = fat_bytes(e.ctime);
    let mt = fat_bytes(e.mtime);
    let c = e.cluster.0 as int;
    let hi = if fat_type == FatType::Fat16 { 0 } else { c / 65536 };
    let lo = c % 65536;
    let sz = e.size as int;
    &&& d.len() == 32
    &&& d.take(11) == e.name.contents@
    &&& d[11] == e.attributes.0
    &&& d[14] == ct[0] && d[15] == ct[1] && d[16] == ct[2] && d[17] == ct[3]
    &&& d[20] == (hi % 256) as u8 && d[21] == (hi / 256) as u8
    &&& d[22] == mt[0] && d[23] == mt[1] && d[24] == mt[2] && d[25] == mt[3]
    &&& d[26] == (lo % 256) as u8 && d[27] == (lo / 256) as u8
    &&& d[28] == (sz % 256) as u8 && d[29] == ((sz / 256) % 256) as u8
    &&& d[30] == ((sz / 65536) % 256) as u8 && d[31] == (sz / 16777216) as u8
}

/// Where each field of an entry lies in its 32 bytes.
proof fn lemma_entry_bytes_layout(e: DirEntry, fat_type: FatType)
    ensures
        holds_entry_fields(entry_bytes(e, fat_type), e, fat_type),
{
    let d = entry_bytes(e, fat_type);
    assert(d.take(11) =~= e.name.contents@);
}

/// Two bytes holding the halves of a 16-bit value read back as that value.
proof fn lemma_le16_halves(d: Seq<u8>, off: int, v: int)
    requires
        0 <= off,
        off + 2 <= d.len(),
        0 <= v < 65536,
        d[off] == (v % 256) as u8,
        d[off + 1] == (v / 256) as u8,
    ensures
        le16(d, off) == v,
{
}

/// Four bytes holding a timestamp read back as that timestamp, when FAT
/// stores it exactly.
proof fn lemma_read_timestamp(d: Seq<u8>, off: int, t: Timestamp)
    requires
        0 <= off,
        off + 4 <= d.len(),
        fat_representable(t),
        d[off] == fat_bytes(t)[0],
        d[off + 1] == fat_bytes(t)[1],
        d[off + 2] == fat_bytes(t)[2],
        d[off + 3] == fat_bytes(t)[3],
    ensures
        fat_timestamp(le16(d, off + 2) as u16, le16(d, off) as u16) == t,
{
    lemma_fat_bytes_words(t);
    lemma_fat_words_roundtrip(t);
    assert(le16(d, off) == le16(fat_bytes(t), 0));
    assert(le16(d, off + 2) == le16(fat_bytes(t), 2));
}

/// Bytes that hold the fields of an entry read back as that entry, under
/// the conditions of `lemma_entry_bytes_roundtrip`.
#[verifier::spinoff_prover]
#[verifier::rlimit(40)]
proof fn lemma_read_entry_fields(d: Seq<u8>, e: DirEntry, fat_type: FatType)
    requires
        holds_entry_fields(d, e, fat_type),
        fat_representable(e.ctime),
        fat_representable(e.mtime),
        fat_type == FatType::Fat32 || e.cluster.0 < 65536,
        !(e.cluster.0 == 0 && has_flags(e.attributes.0, 0x10)),
    ensures
        is_entry_of(e, d, fat_type, e.entry_block, e.entry_offset),
{
    lemma_read_timestamp(d, 14, e.ctime);
    lemma_read_timestamp(d, 22, e.mtime);
    let c = e.cluster.0 as int;
    let hi = if fat_type == FatType::Fat16 { 0 } else { c / 65536 };
    let lo = c % 65536;
    assert(c == (c / 65536) * 65536 + c % 65536 && c / 65536 < 65536) by (nonlinear_arith)
        requires
            0 <= c < 0x1_0000_0000,
    ;
    lemma_le16_halves(d, 20, hi);
    lemma_le16_halves(d, 26, lo);
    assert(entry_cluster(d, fat_type) == c);
    let sz = e.size as int;
    assert(sz == (sz / 65536) * 65536 + sz % 65536 && (sz % 65536) % 256 == sz % 256 && (sz
        % 65536) / 256 == (sz / 256) % 256 && (sz / 65536) % 256 == (sz / 65536) % 256 && (sz
        / 65536) / 256 == sz / 16777216 && sz / 65536 < 65536) by (nonlinear_arith)
        requires
            0 <= sz < 0x1_0000_0000,
    ;
    lemma_le16_halves(d, 28, sz % 65536);
    lemma_le16_halves(d, 30, sz / 65536);
    assert(le32(d, 28) == sz);
}

/// Reading back the 32 bytes written for a directory entry gives the same
/// entry, when its timestamps are ones FAT stores exactly, its cluster fits
/// the FAT type, and it is not a directory at cluster zero (which reads back
/// as the root directory).
pub proof fn lemma_entry_bytes_roundtrip(e: DirEntry, fat_type: FatType)
    requires
        fat_representable(e.ctime),
        fat_representable(e.mtime),
        fat_type == FatType::Fat32 || e.cluster.0 < 65536,
        !(e.cluster.0 == 0 && has_flags(e.attributes.0, 0x10)),
    ensures
        is_entry_of(e, entry_bytes(e, fat_type), fat_type, e.entry_block, e.entry_offset),
{
    lemma_entry_bytes_layout(e, fat_type);
    lemma_read_entry_fields(entry_bytes(e, fat_type), e, fat_type);
}


/// The on-disk form of an entry matches a short name exactly when the name
/// is the entry's own: `matches` compares the first eleven bytes.
pub proof fn lemma_encoded_entry_matches(e: DirEntry, fat_type: FatType, name: ShortFileName)
    ensures
        (entry_bytes(e, fat_type).take(11) == name.contents@) <==> (name.contents@
            == e.name.contents@),
{
    assert(entry_bytes(e, fat_type).take(11) =~= e.name.contents@);
}

/// How `Debug` shows an on-disk entry with bytes `d`: each of its fields,
/// by name, in decimal, then whether it ends the directory, is in use or is
/// a long file name fragment, and the first cluster as FAT32 and as FAT16
/// read it.
pub open spec fn ondisk_debug_chars(d: Seq<u8>) -> Seq<char> {
    "OnDiskDirEntry<raw_attr = "@ + decimal(d[11] as nat) + ", create_time = "@ + decimal(
        le16(d, 14) as nat,
    ) + ", create_date = "@ + decimal(le16(d, 16) as nat) + ", last_access_data = "@ + decimal(
        le16(d, 18) as nat,
    ) + ", first_cluster_hi = "@ + decimal(le16(d, 20) as nat) + ", write_time = "@ + decimal(
        le16(d, 22) as nat,
    ) + ", write_date = "@ + decimal(le16(d, 24) as nat) + ", first_cluster_lo = "@ + decimal(
        le16(d, 26) as nat,
    ) + ", file_size = "@ + decimal(le32(d, 28) as nat) + ", is_end = "@ + bool_chars(d[0] == 0)
        + ", is_valid = "@ + bool_chars(d[0] != 0 && d[0] != 0xE5) + ", is_lfn = "@ + bool_chars(
        has_flags(d[11], 0x0F),
    ) + ", first_cluster_fat32 = "@ + cluster_debug_chars(
        (le16(d, 20) * 65536 + le16(d, 26)) as u32,
    ) + ", first_cluster_fat16 = "@ + cluster_debug_chars(le16(d, 26) as u32) + ">"@
}

impl OnDiskDirEntry<'_> {
    /// The entry as `Debug` shows it.
    pub fn debug_string(&self) -> (r: String)
        requires
            self.bytes().len() >= 32,
        ensures
            r@ == ondisk_debug_chars(self.bytes()),
    {
        let mut out: Vec<char> = Vec::new();
        push_str(&mut out, "OnDiskDirEntry<raw_attr = ");
        push_decimal(&mut out, self.raw_attr() as u32);
        push_str(&mut out, ", create_time = ");
        push_decimal(&mut out, self.create_time() as u32);
        push_str(&mut out, ", create_date = ");
        push_decimal(&mut out, self.create_date() as u32);
        push_str(&mut out, ", last_access_data = ");
        push_decimal(&mut out, self.last_access_data() as u32);
        push_str(&mut out, ", first_cluster_hi = ");
        push_decimal(&mut out, self.first_cluster_hi() as u32);
        push_str(&mut out, ", write_time = ");
        push_decimal(&mut out, self.write_time() as u32);
        push_str(&mut out, ", write_date = ");
        push_decimal(&mut out, self.write_date() as u32);
        push_str(&mut out, ", first_cluster_lo = ");
        push_decimal(&mut out, self.first_cluster_lo() as u32);
        push_str(&mut out, ", file_size = ");
        push_decimal(&mut out, self.file_size());
        push_str(&mut out, ", is_end = ");
        push_bool(&mut out, self.is_end());
        push_str(&mut out, ", is_valid = ");
        push_bool(&mut out, self.is_valid());
        push_str(&mut out, ", is_lfn = ");
        push_bool(&mut out, self.is_lfn());
        push_str(&mut out, ", first_cluster_fat32 = ");
        push_cluster_debug(&mut out, self.first_cluster_fat32());
        push_str(&mut out, ", first_cluster_fat16 = ");
        push_cluster_debug(&mut out, self.first_cluster_fat16());
        push_str(&mut out, ">");
        string_from_chars(&out)
    }
}

} // verus!
