//! Assembly of Long File Names from their on-disk pieces.

use vstd::prelude::*;
use vstd::utf8::{encode_scalar, encode_utf8, valid_utf8};

verus! {

/// Where the name in a piece of a Long File Name ends: at its first zero
/// code unit, or at its end.
pub open spec fn name_end(units: Seq<u16>) -> nat
    decreases units.len(),
{
    if units.len() == 0 || units[0] == 0 {
        0
    } else {
        1 + name_end(units.drop_first())
    }
}

/// The character that a UCS-2 code unit stands for; `'?'` for a lone
/// surrogate, which is no character.
pub open spec fn ucs2_char(unit: u16) -> char {
    if 0xD800 <= unit <= 0xDFFF {
        '?'
    } else {
        (unit as u32) as char
    }
}

/// The characters of one on-disk piece of a Long File Name: its code units
/// up to the first zero.
pub open spec fn lfn_piece_chars(units: Seq<u16>) -> Seq<char> {
    Seq::new(name_end(units), |j: int| ucs2_char(units[j]))
}

proof fn lemma_name_end(units: Seq<u16>, k: int)
    requires
        0 <= k <= units.len(),
        forall|j: int| 0 <= j < k ==> units[j] != 0,
        k < units.len() ==> units[k] == 0,
    ensures
        name_end(units) == k,
    decreases units.len(),
{
    if units.len() > 0 && units[0] != 0 {
        let rest = units.drop_first();
        assert forall|j: int| 0 <= j < k - 1 implies rest[j] != 0 by {
            assert(rest[j] == units[j + 1]);
        }
        if k - 1 < rest.len() {
            assert(rest[k - 1] == units[k]);
        }
        lemma_name_end(rest, k - 1);
    }
}

/// The `char` of a code point, if it is one (`char::from_u32`).
///
/// Trusted: `from_u32` gives `Some` exactly for the Unicode scalar values,
/// the character with that value.
#[verifier::external_body]
pub(crate) fn char_from_u32(v: u32) -> (r: Option<char>)
    ensures
        r is Some <==> (v <= 0x10FFFF && !(0xD800 <= v <= 0xDFFF)),
        r matches Some(c) ==> c as u32 == v,
{
    char::from_u32(v)
}

/// The text that the bytes of `bytes` from `start` on encode, if they are
/// UTF-8 (`core::str::from_utf8`).
///
/// Trusted: `from_utf8` succeeds exactly on valid UTF-8, and the string it
/// gives is made of those bytes.
#[verifier::external_body]
fn utf8_str_from(bytes: &[u8], start: usize) -> (r: Option<&str>)
    requires
        start <= bytes@.len(),
    ensures
        r is Some <==> valid_utf8(bytes@.subrange(start as int, bytes@.len() as int)),
        r matches Some(s) ==> encode_utf8(s@) == bytes@.subrange(start as int, bytes@.len() as int),
{
    match core::str::from_utf8(&bytes[start..]) {
        Ok(s) => Some(s),
        Err(_) => None,
    }
}

/// The UTF-8 encoding of one character.
fn utf8_bytes(c: char) -> (r: Vec<u8>)
    ensures
        r@ == encode_scalar(c as u32),
{
    proof {
        vstd::utf8::char_is_scalar(c);
    }
    let v = c as u32;
    let mut r: Vec<u8> = Vec::new();
    if v <= 0x7F {
        r.push((v & 0x7F) as u8);
    } else if v <= 0x7FF {
        r.push(0xC0u8 | ((v >> 6) & 0x1F) as u8);
        r.push(0x80u8 | (v & 0x3F) as u8);
    } else if v <= 0xFFFF {
        r.push(0xE0u8 | ((v >> 12) & 0x0F) as u8);
        r.push(0x80u8 | ((v >> 6) & 0x3F) as u8);
        r.push(0x80u8 | (v & 0x3F) as u8);
    } else {
        r.push(0xF0u8 | ((v >> 18) & 0x7) as u8);
        r.push(0x80u8 | ((v >> 12) & 0x3F) as u8);
        r.push(0x80u8 | ((v >> 6) & 0x3F) as u8);
        r.push(0x80u8 | (v & 0x3F) as u8);
    }
    assert(r@ =~= encode_scalar(v));
    r
}

/// The bytes of `encode_utf8(a + b)` are those of `a` followed by those of `b`.
proof fn lemma_encode_concat(a: Seq<char>, b: Seq<char>)
    ensures
        encode_utf8(a + b) == encode_utf8(a) + encode_utf8(b),
    decreases a.len(),
{
    if a.len() == 0 {
        assert(a + b =~= b);
        assert(encode_utf8(a) + encode_utf8(b) =~= encode_utf8(b));
    } else {
        assert((a + b).drop_first() =~= a.drop_first() + b);
        lemma_encode_concat(a.drop_first(), b);
        assert(encode_utf8(a + b) =~= encode_utf8(a) + encode_utf8(b));
    }
}

/// Used to store a Long File Name
pub struct LfnBuffer<'a> {
    /// We fill this buffer in from the back
    inner: &'a mut [u8],
    /// How many bytes are free.
    ///
    /// This is also the byte index the string starts from.
    free: usize,
    /// Did we overflow?
    overflow: bool,
    /// The characters held, in order.
    chars: Ghost<Seq<char>>,
}

impl<'a> LfnBuffer<'a> {
    /// The buffer's invariant: the bytes from `free` on are the UTF-8
    /// encoding of the characters held.
    pub closed spec fn wf(&self) -> bool {
        &&& self.free <= self.inner@.len()
        &&& self.inner@.subrange(self.free as int, self.inner@.len() as int) == encode_utf8(
            self.chars@,
        )
    }

    /// The characters stored so far.
    pub closed spec fn text(&self) -> Seq<char> {
        self.chars@
    }

    /// Whether a push has run out of room since the last clear.
    pub closed spec fn overflowed(&self) -> bool {
        self.overflow
    }

    /// How many bytes of storage are still free.
    pub closed spec fn free_space(&self) -> nat {
        self.free as nat
    }

    /// The size of the storage.
    pub closed spec fn capacity(&self) -> nat {
        self.inner@.len()
    }

    fn put(&mut self, i: usize, b: u8)
        requires
            i < old(self).inner@.len(),
        ensures
            final(self).inner@ == old(self).inner@.update(i as int, b),
            final(self).free == old(self).free,
            final(self).overflow == old(self).overflow,
            final(self).chars == old(self).chars,
    {
        self.inner[i] = b;
    }

    /// Create a new, empty, LFN Buffer using the given mutable slice as its storage.
    pub fn new(storage: &'a mut [u8]) -> (r: LfnBuffer<'a>)
        ensures
            r.wf(),
            r.text() == Seq::<char>::empty(),
            !r.overflowed(),
            r.free_space() == old(storage)@.len(),
            r.capacity() == old(storage)@.len(),
    {
        let len = storage.len();
        let r = LfnBuffer { inner: storage, free: len, overflow: false, chars: Ghost(Seq::empty()) };
        assert(r.inner@.subrange(len as int, len as int) =~= Seq::<u8>::empty());
        r
    }

    /// Empty out this buffer
    pub fn clear(&mut self)
        requires
            old(self).wf(),
        ensures
            final(self).wf(),
            final(self).text() == Seq::<char>::empty(),
            !final(self).overflowed(),
            final(self).free_space() == old(self).capacity(),
            final(self).capacity() == old(self).capacity(),
    {
        self.free = self.inner.len();
        self.overflow = false;
        self.chars = Ghost(Seq::empty());
        assert(self.inner@.subrange(self.free as int, self.free as int) =~= Seq::<u8>::empty());
    }

    /// Push the 13 UCS-2 characters into this string
    ///
    /// We assume they are pushed last-chunk-first, as you would find
    /// them on disk.
    pub fn push(&mut self, buffer: &[u16; 13])
        requires
            old(self).wf(),
        ensures
            final(self).wf(),
            final(self).capacity() == old(self).capacity(),
            ({
                let pushed = lfn_piece_chars(buffer@);
                let need = encode_utf8(pushed).len();
                &&& need <= old(self).free_space() ==> {
                    &&& final(self).text() == pushed + old(self).text()
                    &&& final(self).free_space() == old(self).free_space() - need
                    &&& final(self).overflowed() == old(self).overflowed()
                }
                &&& need > old(self).free_space() ==> final(self).overflowed()
            }),
    {
        let mut null_idx: usize = 0;
        while null_idx < 13 && buffer[null_idx] != 0
            invariant
                null_idx <= 13,
                forall|j: int| 0 <= j < null_idx ==> buffer@[j] != 0,
            decreases 13 - null_idx,
        {
            null_idx = null_idx + 1;
        }
        proof {
            lemma_name_end(buffer@, null_idx as int);
        }
        let ghost pushed = lfn_piece_chars(buffer@);
        let ghost n = null_idx as int;
        let ghost old_chars = self.chars@;
        let ghost free0 = self.free as int;
        let mut i = null_idx;
        while i > 0
            invariant
                i <= null_idx,
                null_idx <= 13,
                n == null_idx,
                pushed == lfn_piece_chars(buffer@),
                pushed.len() == n,
                self.wf(),
                self.inner@.len() == old(self).inner@.len(),
                self.chars@ == pushed.subrange(i as int, n) + old_chars,
                self.free == free0 - encode_utf8(pushed.subrange(i as int, n)).len(),
                self.overflow == old(self).overflow,
                old_chars == old(self).chars@,
                free0 == old(self).free,
            decreases i,
        {
            i = i - 1;
            let unit = buffer[i];
            let ch = match char_from_u32(unit as u32) {
                Some(c) => c,
                None => '?',
            };
            proof {
                if !(0xD800 <= unit <= 0xDFFF) {
                    vstd::utf8::char_u32_cast(ch, unit as u32);
                }
                assert(ch == pushed[i as int]);
                let tail = pushed.subrange(i + 1, n);
                assert(pushed.subrange(i as int, n) =~= seq![ch] + tail);
                assert((seq![ch] + tail).drop_first() =~= tail);
                assert(encode_utf8(seq![ch] + tail) == encode_scalar(ch as u32) + encode_utf8(tail));
            }
            let bytes = utf8_bytes(ch);
            if self.free < bytes.len() {
                self.overflow = true;
                proof {
                    assert(pushed =~= pushed.subrange(0, i as int) + pushed.subrange(i as int, n));
                    lemma_encode_concat(pushed.subrange(0, i as int), pushed.subrange(i as int, n));
                }
                return;
            }
            let ghost free1 = self.free as int;
            let ghost before = self.inner@;
            let ghost chars1 = self.chars@;
            let mut k = bytes.len();
            while k > 0
                invariant
                    k <= bytes@.len(),
                    bytes@.len() <= free1,
                    free1 <= before.len(),
                    self.free == free1 - (bytes@.len() - k),
                    self.inner@.len() == before.len(),
                    forall|j: int| 0 <= j < self.free ==> self.inner@[j] == before[j],
                    forall|j: int| free1 <= j < before.len() ==> self.inner@[j] == before[j],
                    forall|j: int|
                        self.free <= j < free1 ==> self.inner@[j] == bytes@[j - self.free + k],
                    self.chars@ == chars1,
                    self.overflow == old(self).overflow,
                decreases k,
            {
                k = k - 1;
                self.free = self.free - 1;
                let f = self.free;
                self.put(f, bytes[k]);
            }
            proof {
                let tail = pushed.subrange(i + 1, n);
                let new_chars = pushed.subrange(i as int, n) + old_chars;
                assert(self.inner@.subrange(self.free as int, self.inner@.len() as int) =~= bytes@
                    + before.subrange(free1, before.len() as int));
                lemma_encode_concat(seq![ch], tail + old_chars);
                lemma_encode_concat(tail, old_chars);
                assert(seq![ch] + (tail + old_chars) =~= new_chars);
                assert(encode_utf8(seq![ch]) =~= encode_scalar(ch as u32)) by {
                    assert(seq![ch].drop_first() =~= Seq::<char>::empty());
                    assert(encode_utf8(Seq::<char>::empty()) =~= Seq::<u8>::empty());
                    assert(encode_scalar(ch as u32) + Seq::<u8>::empty() =~= encode_scalar(
                        ch as u32,
                    ));
                }
            }
            self.chars = Ghost(pushed.subrange(i as int, n) + old_chars);
        }
        proof {
            assert(pushed.subrange(0, n) =~= pushed);
            lemma_encode_concat(pushed, old_chars);
        }
    }

    /// View this LFN buffer as a string-slice
    pub fn as_str(&self) -> (r: &str)
        requires
            self.wf(),
        ensures
            r@ == (if self.overflowed() {
                Seq::<char>::empty()
            } else {
                self.text()
            }),
    {
        proof {
            reveal_strlit("");
        }
        if self.overflow {
            ""
        } else {
            proof {
                vstd::utf8::encode_utf8_valid_utf8(self.chars@);
            }
            match utf8_str_from(self.inner, self.free) {
                Some(s) => {
                    proof {
                        vstd::utf8::encode_utf8_decode_utf8(s@);
                        vstd::utf8::encode_utf8_decode_utf8(self.chars@);
                    }
                    s
                },
                None => "",
            }
        }
    }
}

} // verus!
