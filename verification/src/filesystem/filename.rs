//! MS-DOS 8.3 short file names.

use vstd::prelude::*;
use crate::fat::volume::VolumeName;
use crate::text::string_from_chars;
#[allow(unused_imports)]
use vstd::string::StringSliceAdditionalSpecFns;

verus! {

/// Various filename related errors that can occur.
#[derive(Debug, Clone, Copy, PartialEq, Eq, Structural)]
pub enum FilenameError {
    /// Tried to create a file with an invalid character.
    InvalidCharacter,
    /// Tried to create a file with no file name.
    FilenameEmpty,
    /// Given name was too long (we are limited to 8.3).
    NameTooLong,
    /// Can't start a file with a period, or after 8 characters.
    MisplacedPeriod,
    /// Can't extract utf8 from file name.
    Utf8Error,
}

/// An MS-DOS 8.3 filename, as stored in a directory entry: the base name
/// padded with spaces to 8 bytes, then the extension padded to 3 bytes.
///
/// ISO-8859-1 encoding is assumed. All lower-case is converted to upper-case
/// by default.
#[derive(Clone, Copy, Debug)]
pub struct ShortFileName {
    /// The 11 bytes of the name.
    pub contents: [u8; 11],
}

impl PartialEq for ShortFileName {
    fn eq(&self, other: &Self) -> (r: bool) {
        let mut i: usize = 0;
        while i < 11
            invariant
                i <= 11,
                forall|j: int| 0 <= j < i ==> self.contents@[j] == other.contents@[j],
            decreases 11 - i,
        {
            if self.contents[i] != other.contents[i] {
                return false;
            }
            i = i + 1;
        }
        assert(self.contents@ =~= other.contents@);
        true
    }
}

impl Eq for ShortFileName {}

impl vstd::std_specs::cmp::PartialEqSpecImpl for ShortFileName {
    open spec fn obeys_eq_spec() -> bool {
        true
    }

    open spec fn eq_spec(&self, other: &Self) -> bool {
        self.contents@ == other.contents@
    }
}

/// Eleven spaces: an empty short name.
pub open spec fn blank_name() -> Seq<u8> {
    Seq::new(11, |i: int| 0x20u8)
}

/// The characters (by code point) that may not appear in a short name:
/// control characters, the space, `" * + , / : ; < = > ? [ \ ] |`, and
/// anything outside ISO-8859-1.
pub open spec fn invalid_name_value(v: int) -> bool {
    ||| 0 <= v <= 0x1F
    ||| v == 0x20 || v == 0x22 || v == 0x2A || v == 0x2B || v == 0x2C || v == 0x2F
    ||| 0x3A <= v <= 0x3F
    ||| v == 0x5B || v == 0x5C || v == 0x5D || v == 0x7C
    ||| v > 0xFF
}

/// The byte stored for a character: ASCII lower-case letters are made
/// upper-case when `upper` is set.
pub open spec fn stored_byte(v: int, upper: bool) -> u8 {
    if upper && 0x61 <= v <= 0x7A {
        (v - 32) as u8
    } else {
        v as u8
    }
}

/// Where a name scan stands: the next position to fill, whether the period
/// has been seen, and the bytes so far.
pub struct NameScan {
    pub idx: int,
    pub seen_dot: bool,
    pub contents: Seq<u8>,
}

/// One character of a name scan. A period moves to the extension (only
/// after one to eight base characters); other characters fill the base
/// (up to 8) or the extension (up to 3).
pub open spec fn name_step(st: NameScan, v: int, upper: bool) -> Result<NameScan, FilenameError> {
    if invalid_name_value(v) {
        Err(FilenameError::InvalidCharacter)
    } else if v == 0x2E {
        if 1 <= st.idx <= 8 {
            Ok(NameScan { idx: 8, seen_dot: true, contents: st.contents })
        } else {
            Err(FilenameError::MisplacedPeriod)
        }
    } else if (st.seen_dot && 8 <= st.idx < 11) || (!st.seen_dot && st.idx < 8) {
        Ok(
            NameScan {
                idx: st.idx + 1,
                seen_dot: st.seen_dot,
                contents: st.contents.update(st.idx, stored_byte(v, upper)),
            },
        )
    } else {
        Err(FilenameError::NameTooLong)
    }
}

/// The scan of a whole name, character by character from the left; it stops
/// at the first error.
pub open spec fn name_scan(vals: Seq<int>, upper: bool) -> Result<NameScan, FilenameError>
    decreases vals.len(),
{
    if vals.len() == 0 {
        Ok(NameScan { idx: 0, seen_dot: false, contents: blank_name() })
    } else {
        match name_scan(vals.drop_last(), upper) {
            Ok(st) => name_step(st, vals.last(), upper),
            Err(e) => Err(e),
        }
    }
}

/// The short name that a scan produces, or its error; a name without any
/// character is `FilenameEmpty`.
pub open spec fn name_result(vals: Seq<int>, upper: bool) -> Result<Seq<u8>, FilenameError> {
    match name_scan(vals, upper) {
        Ok(st) => if st.idx == 0 {
            Err(FilenameError::FilenameEmpty)
        } else {
            Ok(st.contents)
        },
        Err(e) => Err(e),
    }
}

/// The code points of a string.
pub open spec fn char_values(s: Seq<char>) -> Seq<int> {
    s.map_values(|c: char| (c as u32) as int)
}

/// The short name for `..`.
pub open spec fn parent_dir_name() -> Seq<u8> {
    blank_name().update(0, 0x2E).update(1, 0x2E)
}

/// The short name for `.`.
pub open spec fn this_dir_name() -> Seq<u8> {
    blank_name().update(0, 0x2E)
}

/// What `create_from_str` gives for a name: `..` is the parent directory,
/// the empty name and `.` are this directory, anything else is scanned with
/// lower-case letters made upper-case.
pub open spec fn short_name_of(s: Seq<char>) -> Result<Seq<u8>, FilenameError> {
    if s == seq!['.', '.'] {
        Ok(parent_dir_name())
    } else if s.len() == 0 || s == seq!['.'] {
        Ok(this_dir_name())
    } else {
        name_result(char_values(s), true)
    }
}

/// The bytes of `s` before its first space (all of `s` if it has none).
pub open spec fn is_before_space(r: Seq<u8>, s: Seq<u8>) -> bool {
    &&& r.len() <= s.len()
    &&& r == s.take(r.len() as int)
    &&& forall|i: int| 0 <= i < r.len() ==> r[i] != 0x20
    &&& r.len() == s.len() || s[r.len() as int] == 0x20
}

/// The LFN checksum of a short name: for each byte, rotate the sum right by
/// one bit and add the byte, modulo 256.
pub open spec fn name_checksum(s: Seq<u8>) -> u8
    decreases s.len(),
{
    if s.len() == 0 {
        0
    } else {
        let prev = name_checksum(s.drop_last()) as int;
        ((prev / 2 + (prev % 2) * 128 + s.last()) % 256) as u8
    }
}

/// The way a short name is shown: its non-space bytes, as ISO-8859-1
/// characters, with a period before the first extension byte shown.
pub open spec fn display_chars(s: Seq<u8>, upto: int) -> Seq<char>
    decreases upto,
{
    if upto <= 0 {
        seq![]
    } else {
        let prev = display_chars(s, upto - 1);
        let c = s[upto - 1];
        if c == 0x20 {
            prev
        } else if upto - 1 == 8 {
            prev.push('.').push(c as char)
        } else {
            prev.push(c as char)
        }
    }
}

/// The bytes before the first space.
fn bytes_before_space(bytes: &[u8]) -> (r: &[u8])
    ensures
        is_before_space(r@, bytes@),
{
    let mut i: usize = 0;
    while i < bytes.len() && bytes[i] != 0x20
        invariant
            i <= bytes@.len(),
            forall|j: int| 0 <= j < i ==> bytes@[j] != 0x20,
        decreases bytes@.len() - i,
    {
        i = i + 1;
    }
    let r = vstd::slice::slice_subrange(bytes, 0, i);
    assert(r@ =~= bytes@.take(i as int));
    r
}

impl ShortFileName {
    /// Length of the base name.
    pub const BASE_LEN: usize = 8;
    /// Length of the whole name.
    pub const TOTAL_LEN: usize = 11;

    /// Get a short file name containing "..", which means "parent directory".
    pub fn parent_dir() -> (r: ShortFileName)
        ensures
            r.contents@ == parent_dir_name(),
    {
        let r = ShortFileName { contents: [0x2E, 0x2E, 0x20, 0x20, 0x20, 0x20, 0x20, 0x20, 0x20, 0x20, 0x20] };
        assert(r.contents@ =~= parent_dir_name());
        r
    }

    /// Get a short file name containing ".", which means "this directory".
    pub fn this_dir() -> (r: ShortFileName)
        ensures
            r.contents@ == this_dir_name(),
    {
        let r = ShortFileName { contents: [0x2E, 0x20, 0x20, 0x20, 0x20, 0x20, 0x20, 0x20, 0x20, 0x20, 0x20] };
        assert(r.contents@ =~= this_dir_name());
        r
    }

    /// Get base name (without extension) of the file.
    pub fn base_name(&self) -> (r: &[u8])
        ensures
            is_before_space(r@, self.contents@.take(8)),
    {
        let all: &[u8] = &self.contents;
        let base = vstd::slice::slice_subrange(all, 0, 8);
        assert(base@ =~= self.contents@.take(8));
        bytes_before_space(base)
    }

    /// Get extension of the file (without base name).
    pub fn extension(&self) -> (r: &[u8])
        ensures
            is_before_space(r@, self.contents@.skip(8)),
    {
        let all: &[u8] = &self.contents;
        let ext = vstd::slice::slice_subrange(all, 8, 11);
        assert(ext@ =~= self.contents@.skip(8));
        bytes_before_space(ext)
    }

    /// Treat these eleven bytes as a volume label. Only do this with the name
    /// of a directory entry that has the 'Volume Label' attribute: a label
    /// may hold bytes that a short file name may not.
    pub fn to_volume_label(self) -> (r: VolumeName)
        ensures
            r.data == self.contents,
    {
        VolumeName::new(self.contents)
    }

    /// Get the LFN checksum for this short filename.
    pub fn csum(&self) -> (r: u8)
        ensures
            r == name_checksum(self.contents@),
    {
        let mut result: u8 = 0;
        let mut i: usize = 0;
        while i < 11
            invariant
                i <= 11,
                result == name_checksum(self.contents@.take(i as int)),
            decreases 11 - i,
        {
            assert(self.contents@.take(i + 1).drop_last() =~= self.contents@.take(i as int));
            let rotated: u8 = (result >> 1) | ((result & 1) << 7);
            assert((result >> 1) | ((result & 1) << 7) == result / 2 + (result % 2) * 128)
                by (bit_vector);
            result = ((rotated as u16 + self.contents[i] as u16) % 256) as u8;
            i = i + 1;
        }
        assert(self.contents@.take(11) =~= self.contents@);
        result
    }

    /// The name as it is shown: base name, then a period and the extension
    /// if there is one, without the padding spaces.
    pub fn to_string(&self) -> (r: String)
        ensures
            r@ == display_chars(self.contents@, 11),
    {
        let mut chars: Vec<char> = Vec::new();
        let mut i: usize = 0;
        while i < 11
            invariant
                i <= 11,
                chars@ == display_chars(self.contents@, i as int),
            decreases 11 - i,
        {
            let c = self.contents[i];
            if c != 0x20 {
                if i == 8 {
                    chars.push('.');
                }
                chars.push(c as char);
            }
            i = i + 1;
        }
        string_from_chars(&chars)
    }
}

/// Things that can be turned into a short file name.
pub trait ToShortFileName {
    /// Turn this into a short file name.
    fn to_short_filename(self) -> Result<ShortFileName, FilenameError>;
}

impl ToShortFileName for ShortFileName {
    fn to_short_filename(self) -> (r: Result<ShortFileName, FilenameError>)
        ensures
            r == Ok::<ShortFileName, FilenameError>(self),
    {
        Ok(self)
    }
}

impl ToShortFileName for &ShortFileName {
    fn to_short_filename(self) -> (r: Result<ShortFileName, FilenameError>)
        ensures
            r == Ok::<ShortFileName, FilenameError>(*self),
    {
        Ok(*self)
    }
}

impl ToShortFileName for &str {
    fn to_short_filename(self) -> (r: Result<ShortFileName, FilenameError>)
        ensures
            match (r, short_name_of(self@)) {
                (Ok(n), Ok(c)) => n.contents@ == c,
                (Err(e), Err(f)) => e == f,
                _ => false,
            },
    {
        ShortFileName::create_from_str(self)
    }
}

/// The values of a vector of `u32`, as integers.
pub open spec fn u32_values(v: Seq<u32>) -> Seq<int> {
    v.map_values(|x: u32| x as int)
}

/// The byte values of a byte string, as integers.
pub open spec fn byte_values(v: Seq<u8>) -> Seq<int> {
    v.map_values(|x: u8| x as int)
}

/// What `create_from_str_mixed_case` gives for the bytes of a name: they are
/// scanned as they are, without changing their case.
pub open spec fn mixed_case_name_of(bytes: Seq<u8>) -> Result<Seq<u8>, FilenameError> {
    name_result(byte_values(bytes), false)
}

/// A character value with an ASCII lower-case letter made upper-case.
pub open spec fn upper_value(v: int) -> int {
    if 0x61 <= v <= 0x7A {
        v - 32
    } else {
        v
    }
}

/// Scanning with lower-case letters made upper-case is scanning the
/// upper-cased values as they are.
proof fn lemma_scan_upper_as_is(vals: Seq<int>)
    ensures
        name_scan(vals, true) == name_scan(vals.map_values(|v: int| upper_value(v)), false),
    decreases vals.len(),
{
    let u = vals.map_values(|v: int| upper_value(v));
    if vals.len() > 0 {
        assert(u.drop_last() =~= vals.drop_last().map_values(|v: int| upper_value(v)));
        lemma_scan_upper_as_is(vals.drop_last());
        let v = vals.last();
        assert(u.last() == upper_value(v));
        assert(stored_byte(v, true) == stored_byte(upper_value(v), false));
        assert(invalid_name_value(v) == invalid_name_value(upper_value(v)));
    }
}

/// The plain parser agrees with the mixed-case parser on an upper-cased
/// name: `create_from_str` of a name (other than `..`, `.` and the empty
/// name) gives what `create_from_str_mixed_case` gives for the name with
/// its ASCII letters made upper-case.
pub proof fn lemma_plain_parser_is_mixed_parser_on_upper(s: Seq<char>, upper_bytes: Seq<u8>)
    requires
        s != seq!['.', '.'],
        s.len() > 0,
        s != seq!['.'],
        byte_values(upper_bytes) == char_values(s).map_values(|v: int| upper_value(v)),
    ensures
        short_name_of(s) == mixed_case_name_of(upper_bytes),
{
    lemma_scan_upper_as_is(char_values(s));
}

/// Once a scan fails on a prefix, it fails with the same error on the whole.
pub proof fn lemma_scan_error_persists(vals: Seq<int>, k: int, upper: bool)
    requires
        0 <= k <= vals.len(),
        name_scan(vals.take(k), upper) is Err,
    ensures
        name_scan(vals, upper) == name_scan(vals.take(k), upper),
    decreases vals.len() - k,
{
    if k < vals.len() {
        assert(vals.take(k + 1).drop_last() =~= vals.take(k));
        lemma_scan_error_persists(vals, k + 1, upper);
    } else {
        assert(vals.take(k) =~= vals);
    }
}

/// Whether a code point may not appear in a short name.
fn is_invalid_value(v: u32) -> (r: bool)
    ensures
        r == invalid_name_value(v as int),
{
    v <= 0x1F || v == 0x20 || v == 0x22 || v == 0x2A || v == 0x2B || v == 0x2C || v == 0x2F
        || (0x3A <= v && v <= 0x3F) || v == 0x5B || v == 0x5C || v == 0x5D || v == 0x7C || v > 0xFF
}

/// Scan a name given by its code points (or bytes).
fn scan_name(vals: &Vec<u32>, upper: bool) -> (r: Result<ShortFileName, FilenameError>)
    ensures
        match (r, name_result(u32_values(vals@), upper)) {
            (Ok(n), Ok(c)) => n.contents@ == c,
            (Err(e), Err(f)) => e == f,
            _ => false,
        },
{
    let ghost all = u32_values(vals@);
    let mut contents: [u8; 11] = [0x20u8; 11];
    let mut idx: usize = 0;
    let mut seen_dot = false;
    let mut i: usize = 0;
    assert(contents@ =~= blank_name());
    assert(all.take(0) =~= Seq::<int>::empty());
    while i < vals.len()
        invariant
            i <= vals@.len(),
            all == u32_values(vals@),
            idx <= 11,
            name_scan(all.take(i as int), upper) == Ok::<NameScan, FilenameError>(
                NameScan { idx: idx as int, seen_dot, contents: contents@ },
            ),
        decreases vals@.len() - i,
    {
        let v = vals[i];
        assert(all.take(i + 1).drop_last() =~= all.take(i as int));
        assert(all.take(i + 1).last() == v as int);
        if is_invalid_value(v) {
            proof { lemma_scan_error_persists(all, i + 1, upper); }
            return Err(FilenameError::InvalidCharacter);
        }
        if v == 0x2E {
            if 1 <= idx && idx <= 8 {
                idx = 8;
                seen_dot = true;
            } else {
                proof { lemma_scan_error_persists(all, i + 1, upper); }
                return Err(FilenameError::MisplacedPeriod);
            }
        } else {
            let b: u8 = if upper && 0x61 <= v && v <= 0x7A { (v - 32) as u8 } else { v as u8 };
            if (seen_dot && 8 <= idx && idx < 11) || (!seen_dot && idx < 8) {
                contents[idx] = b;
                idx = idx + 1;
            } else {
                proof { lemma_scan_error_persists(all, i + 1, upper); }
                return Err(FilenameError::NameTooLong);
            }
        }
        i = i + 1;
    }
    assert(all.take(vals@.len() as int) =~= all);
    if idx == 0 {
        return Err(FilenameError::FilenameEmpty);
    }
    Ok(ShortFileName { contents })
}

impl ShortFileName {
    /// Create a new MS-DOS 8.3 space-padded file name as stored in the
    /// directory entry. Lower-case ASCII letters are made upper-case; the
    /// output uses ISO-8859-1 encoding.
    pub fn create_from_str(name: &str) -> (r: Result<ShortFileName, FilenameError>)
        ensures
            match (r, short_name_of(name@)) {
                (Ok(n), Ok(c)) => n.contents@ == c,
                (Err(e), Err(f)) => e == f,
                _ => false,
            },
    {
        let mut vals: Vec<u32> = Vec::new();
        let mut chars: Vec<char> = Vec::new();
        for ch in it: name.chars()
            invariant
                it.seq() == name@,
                chars@ == name@.take(it.index()),
                vals@.len() == chars@.len(),
                forall|j: int| 0 <= j < vals@.len() ==> vals@[j] == chars@[j] as u32,
        {
            let v: u32 = ch as u32;
            chars.push(ch);
            vals.push(v);
            assert(chars@ =~= name@.take(it.index() + 1));
        }
        assert(chars@ =~= name@);
        assert(u32_values(vals@) =~= char_values(name@));
        if chars.len() == 2 && chars[0] == '.' && chars[1] == '.' {
            assert(name@ =~= seq!['.', '.']);
            return Ok(ShortFileName::parent_dir());
        }
        if chars.len() == 0 || (chars.len() == 1 && chars[0] == '.') {
            assert(chars.len() == 1 ==> name@ =~= seq!['.']);
            return Ok(ShortFileName::this_dir());
        }
        assert(name@ != seq!['.', '.']) by {
            if name@ == seq!['.', '.'] {
                assert(chars@[0] == '.' && chars@[1] == '.');
            }
        }
        assert(name@ != seq!['.']) by {
            if name@ == seq!['.'] {
                assert(chars@[0] == '.');
            }
        }
        scan_name(&vals, true)
    }

    /// Create a new MS-DOS 8.3 space-padded file name as stored in the
    /// directory entry, keeping the case of each byte (for volume labels
    /// with mixed case).
    pub fn create_from_str_mixed_case(name: &str) -> (r: Result<ShortFileName, FilenameError>)
        ensures
            match (r, mixed_case_name_of(name.spec_bytes())) {
                (Ok(n), Ok(c)) => n.contents@ == c,
                (Err(e), Err(f)) => e == f,
                _ => false,
            },
    {
        let bytes = name.as_bytes();
        let mut vals: Vec<u32> = Vec::new();
        let mut i: usize = 0;
        while i < bytes.len()
            invariant
                i <= bytes@.len(),
                bytes@ == name.spec_bytes(),
                vals@.len() == i,
                forall|j: int| 0 <= j < i ==> vals@[j] as int == bytes@[j] as int,
            decreases bytes@.len() - i,
        {
            vals.push(bytes[i] as u32);
            i = i + 1;
        }
        assert(u32_values(vals@) =~= byte_values(bytes@));
        scan_name(&vals, false)
    }
}

/// Whether `c` stands in a short name as it is written: a character that
/// short names allow, other than the period, and not a lower-case letter.
pub open spec fn plain_name_char(c: char) -> bool {
    &&& !invalid_name_value(c as u32 as int)
    &&& c as u32 != 0x2E
    &&& !(0x61 <= c as u32 <= 0x7A)
}

/// The name `base.ext`, or `base` when there is no extension.
pub open spec fn dotted_name(base: Seq<char>, ext: Seq<char>) -> Seq<char> {
    if ext.len() == 0 {
        base
    } else {
        base + seq!['.'] + ext
    }
}

/// The byte of a character of at most eight bits.
pub open spec fn char_byte(c: char) -> u8 {
    (c as u32) as u8
}

/// The bytes of a short name after the first `i` characters of
/// `base.ext` were read.
pub open spec fn partial_name(base: Seq<char>, ext: Seq<char>, i: int) -> Seq<u8> {
    Seq::new(
        11,
        |j: int|
            if j < base.len() && j < i {
                char_byte(base[j])
            } else if 8 <= j && j - 8 < ext.len() && j - 8 < i - base.len() - 1 {
                char_byte(ext[j - 8])
            } else {
                0x20u8
            },
    )
}

/// Where the scan of a name `base.ext` stands after its first `i`
/// characters.
pub open spec fn scan_after(base: Seq<char>, ext: Seq<char>, i: int) -> NameScan {
    if i <= base.len() {
        NameScan { idx: i, seen_dot: false, contents: partial_name(base, ext, i) }
    } else {
        NameScan { idx: 8 + (i - base.len() - 1), seen_dot: true, contents: partial_name(base, ext, i) }
    }
}

/// The scan of the first `i` characters of a plain 8.3 name.
proof fn lemma_scan_plain(base: Seq<char>, ext: Seq<char>, i: int)
    requires
        1 <= base.len() <= 8,
        ext.len() <= 3,
        forall|k: int| 0 <= k < base.len() ==> plain_name_char(#[trigger] base[k]),
        forall|k: int| 0 <= k < ext.len() ==> plain_name_char(#[trigger] ext[k]),
        0 <= i <= dotted_name(base, ext).len(),
    ensures
        name_scan(char_values(dotted_name(base, ext)).take(i), true) == Ok::<NameScan, FilenameError>(
            scan_after(base, ext, i),
        ),
    decreases i,
{
    let s = dotted_name(base, ext);
    let v = char_values(s);
    if i == 0 {
        assert(v.take(0) =~= Seq::<int>::empty());
        assert(partial_name(base, ext, 0) =~= blank_name());
    } else {
        lemma_scan_plain(base, ext, i - 1);
        assert(v.take(i).drop_last() =~= v.take(i - 1));
        let prev = scan_after(base, ext, i - 1);
        let c = s[i - 1];
        let cv = c as u32 as int;
        assert(v.take(i).last() == cv);
        assert(name_scan(v.take(i), true) == name_step(prev, cv, true));
        if i - 1 < base.len() {
            assert(c == base[i - 1]);
            assert(plain_name_char(c));
            assert(cv != 0x2E);
            assert(stored_byte(cv, true) == char_byte(c));
            assert(prev.contents.update(i - 1, char_byte(c)) =~= partial_name(base, ext, i));
            assert(name_step(prev, cv, true) == Ok::<NameScan, FilenameError>(
                scan_after(base, ext, i),
            ));
        } else if i - 1 == base.len() {
            assert(c == '.');
            assert(cv == 0x2E);
            assert(prev.contents =~= partial_name(base, ext, i));
            assert(name_step(prev, cv, true) == Ok::<NameScan, FilenameError>(
                scan_after(base, ext, i),
            ));
        } else {
            assert(c == ext[i - 2 - base.len()]);
            assert(plain_name_char(c));
            assert(cv != 0x2E);
            assert(stored_byte(cv, true) == char_byte(c));
            assert(prev.contents.update(prev.idx, char_byte(c)) =~= partial_name(base, ext, i));
            assert(name_step(prev, cv, true) == Ok::<NameScan, FilenameError>(
                scan_after(base, ext, i),
            ));
        }
    }
}

/// A character of at most eight bits is the character of its byte.
proof fn lemma_char_byte(ch: char)
    requires
        !invalid_name_value(ch as u32 as int),
    ensures
        (char_byte(ch) as char) == ch,
{
    let b = char_byte(ch);
    assert(ch as u32 <= 0xFF);
    assert(b as u32 == ch as u32);
}

/// How a parsed plain 8.3 name is shown, up to position `m`.
proof fn lemma_display_plain(base: Seq<char>, ext: Seq<char>, m: int)
    requires
        1 <= base.len() <= 8,
        ext.len() <= 3,
        forall|k: int| 0 <= k < base.len() ==> plain_name_char(#[trigger] base[k]),
        forall|k: int| 0 <= k < ext.len() ==> plain_name_char(#[trigger] ext[k]),
        0 <= m <= 11,
    ensures
        display_chars(partial_name(base, ext, dotted_name(base, ext).len() as int), m) == if m
            <= 8 {
            base.take(if m < base.len() { m } else { base.len() as int })
        } else if ext.len() == 0 {
            base
        } else {
            base + seq!['.'] + ext.take(if m - 8 < ext.len() { m - 8 } else { ext.len() as int })
        },
    decreases m,
{
    let c = partial_name(base, ext, dotted_name(base, ext).len() as int);
    if m > 0 {
        lemma_display_plain(base, ext, m - 1);
        let b = c[m - 1];
        if m - 1 < base.len() {
            let ch = base[m - 1];
            assert(plain_name_char(ch));
            lemma_char_byte(ch);
            assert((b as char) == ch);
            assert(base.take(m) =~= base.take(m - 1).push(ch));
        } else if m - 1 < 8 {
            assert(b == 0x20);
        } else if m - 1 - 8 < ext.len() {
            let ch = ext[m - 9];
            assert(plain_name_char(ch));
            lemma_char_byte(ch);
            assert((b as char) == ch);
            if m == 9 {
                assert(base.take(base.len() as int) =~= base);
                assert(base + seq!['.'] + ext.take(1) =~= base.push('.').push(ch));
            } else {
                assert(ext.take(m - 8) =~= ext.take(m - 9).push(ch));
                assert(base + seq!['.'] + ext.take(m - 8) =~= (base + seq!['.'] + ext.take(m - 9)).push(
                    ch,
                ));
            }
        } else {
            assert(b == 0x20);
            if m == 9 {
                assert(base.take(base.len() as int) =~= base);
            }
        }
    }
}

/// Showing the short name made from a plain 8.3 name gives that name back:
/// `create_from_str("HELLO.TXT")` shows as `HELLO.TXT`.
pub proof fn lemma_display_of_parsed(base: Seq<char>, ext: Seq<char>)
    requires
        1 <= base.len() <= 8,
        ext.len() <= 3,
        forall|k: int| 0 <= k < base.len() ==> plain_name_char(#[trigger] base[k]),
        forall|k: int| 0 <= k < ext.len() ==> plain_name_char(#[trigger] ext[k]),
    ensures
        short_name_of(dotted_name(base, ext)) matches Ok(c) && display_chars(c, 11) == dotted_name(
            base,
            ext,
        ),
{
    let s = dotted_name(base, ext);
    lemma_scan_plain(base, ext, s.len() as int);
    assert(char_values(s).take(s.len() as int) =~= char_values(s));
    assert(s != seq!['.', '.']) by {
        assert(plain_name_char(base[0]));
    }
    assert(s != seq!['.']) by {
        assert(plain_name_char(base[0]));
    }
    lemma_display_plain(base, ext, 11);
    if ext.len() > 0 {
        assert(ext.take(ext.len() as int) =~= ext);
    }
}

/// A scan that stands at `st` has read the plain base `base` (and, after
/// a period, the plain extension `ext`).
spec fn scan_shape(st: NameScan, base: Seq<char>, ext: Seq<char>) -> bool {
    &&& base.len() <= 8
    &&& ext.len() <= 3
    &&& forall|k: int| 0 <= k < base.len() ==> plain_name_char(#[trigger] base[k])
    &&& forall|k: int| 0 <= k < ext.len() ==> plain_name_char(#[trigger] ext[k])
    &&& if st.seen_dot {
        &&& base.len() >= 1
        &&& st == scan_after(base, ext, (base.len() + 1 + ext.len()) as int)
    } else {
        &&& ext.len() == 0
        &&& st == scan_after(base, ext, base.len() as int)
    }
}

/// Every scan that has not failed has read a plain base and extension.
proof fn lemma_scan_shape(vals: Seq<int>)
    requires
        name_scan(vals, true) is Ok,
        forall|k: int| 0 <= k < vals.len() ==> #[trigger] vals[k] >= 0,
    ensures
        exists|base: Seq<char>, ext: Seq<char>| scan_shape(name_scan(vals, true)->Ok_0, base, ext),
    decreases vals.len(),
{
    if vals.len() == 0 {
        let e = Seq::<char>::empty();
        assert(partial_name(e, e, 0) =~= blank_name());
        assert(scan_shape(name_scan(vals, true)->Ok_0, e, e));
    } else {
        let prev_vals = vals.drop_last();
        assert(name_scan(prev_vals, true) is Ok);
        assert(vals.last() == vals[vals.len() - 1]);
        lemma_scan_shape(prev_vals);
        let st = name_scan(prev_vals, true)->Ok_0;
        let (base, ext) = choose|base: Seq<char>, ext: Seq<char>| scan_shape(st, base, ext);
        let v = vals.last();
        let next = name_scan(vals, true)->Ok_0;
        assert(name_step(st, v, true) == name_scan(vals, true));
        if v == 0x2E {
            assert(ext.len() == 0);
            assert(next.contents =~= partial_name(base, ext, (base.len() + 1) as int));
            assert(scan_shape(next, base, ext));
        } else {
            let b = stored_byte(v, true);
            let ch = b as char;
            assert(0 <= v <= 0xFF);
            assert(ch as u32 == b as u32);
            assert(plain_name_char(ch));
            assert(char_byte(ch) == b);
            if st.seen_dot {
                let ext2 = ext.push(ch);
                assert(next.contents =~= partial_name(base, ext2, (base.len() + 1 + ext2.len()) as int));
                assert(scan_shape(next, base, ext2));
            } else {
                let base2 = base.push(ch);
                assert(next.contents =~= partial_name(base2, ext, base2.len() as int));
                assert(scan_shape(next, base2, ext));
            }
        }
    }
}

/// Every parsed name shows as a name that parses back to it: for every
/// `s` that `create_from_str` accepts, parsing how the result is shown
/// gives the same short name.
pub proof fn lemma_parsed_name_round_trip(s: Seq<char>)
    requires
        short_name_of(s) is Ok,
    ensures
        short_name_of(display_chars(short_name_of(s)->Ok_0, 11)) == short_name_of(s),
{
    let c = short_name_of(s)->Ok_0;
    if s == seq!['.', '.'] {
        reveal_with_fuel(display_chars, 12);
        assert(display_chars(c, 11) =~= seq!['.', '.']);
    } else if s.len() == 0 || s == seq!['.'] {
        reveal_with_fuel(display_chars, 12);
        assert(display_chars(c, 11) =~= seq!['.']);
    } else {
        let vals = char_values(s);
        lemma_scan_shape(vals);
        let st = name_scan(vals, true)->Ok_0;
        let (base, ext) = choose|base: Seq<char>, ext: Seq<char>| scan_shape(st, base, ext);
        assert(st.idx != 0);
        assert(base.len() >= 1);
        let d = dotted_name(base, ext);
        lemma_scan_plain(base, ext, d.len() as int);
        assert(char_values(d).take(d.len() as int) =~= char_values(d));
        assert(d != seq!['.', '.']) by {
            assert(plain_name_char(base[0]));
        }
        assert(d != seq!['.']) by {
            assert(plain_name_char(base[0]));
        }
        assert(d.len() > 0);
        assert(partial_name(base, ext, d.len() as int) =~= c);
        lemma_display_of_parsed(base, ext);
    }
}

/// The character with an ASCII lower-case letter made upper-case.
pub open spec fn ascii_upper(c: char) -> char {
    if 0x61 <= c as u32 <= 0x7A {
        ((c as u32 - 32) as u8) as char
    } else {
        c
    }
}

/// Scanning a name with its letters made upper-case, character by
/// character, goes the same way as scanning the name itself.
proof fn lemma_scan_upper(vals: Seq<int>, ups: Seq<int>)
    requires
        vals.len() == ups.len(),
        forall|k: int|
            0 <= k < vals.len() ==> #[trigger] ups[k] == if 0x61 <= vals[k] <= 0x7A {
                vals[k] - 32
            } else {
                vals[k]
            },
    ensures
        name_scan(ups, true) == name_scan(vals, true),
    decreases vals.len(),
{
    if vals.len() > 0 {
        lemma_scan_upper(vals.drop_last(), ups.drop_last());
        let k = vals.len() - 1;
        assert(ups[k] == ups.last());
    }
}

/// Short names do not depend on the case of ASCII letters:
/// `create_from_str("hello")` and `create_from_str("HELLO")` give the same
/// name, and so do they for every other name.
pub proof fn lemma_short_name_ignores_case(s: Seq<char>)
    ensures
        short_name_of(s.map_values(|c: char| ascii_upper(c))) == short_name_of(s),
{
    let u = s.map_values(|c: char| ascii_upper(c));
    assert forall|k: int| 0 <= k < s.len() implies #[trigger] char_values(u)[k] == if 0x61
        <= char_values(s)[k] <= 0x7A {
        char_values(s)[k] - 32
    } else {
        char_values(s)[k]
    } by {
        let c = s[k];
        if 0x61 <= c as u32 <= 0x7A {
            let b = (c as u32 - 32) as u8;
            assert(b as u32 == c as u32 - 32);
            assert((b as char) as u32 == b as u32);
        }
    }
    lemma_scan_upper(char_values(s), char_values(u));
    if s == seq!['.', '.'] {
        assert(u =~= s);
    } else if s.len() == 0 || s == seq!['.'] {
        assert(u =~= s);
    } else {
        if u == seq!['.', '.'] || u == seq!['.'] {
            assert(s[0] == '.') by {
                assert(u[0] == ascii_upper(s[0]));
                if 0x61 <= s[0] as u32 <= 0x7A {
                    let b = (s[0] as u32 - 32) as u8;
                    assert(b as u32 == s[0] as u32 - 32);
                    assert((b as char) as u32 == b as u32);
                }
            }
            if u.len() == 2 {
                assert(s[1] == '.') by {
                    assert(u[1] == ascii_upper(s[1]));
                    if 0x61 <= s[1] as u32 <= 0x7A {
                        let b = (s[1] as u32 - 32) as u8;
                        assert(b as u32 == s[1] as u32 - 32);
                        assert((b as char) as u32 == b as u32);
                    }
                }
            }
            assert(s =~= u);
        }
    }
}

} // verus!
