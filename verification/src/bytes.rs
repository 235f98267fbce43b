//! Little-endian integer encoding of the on-disk structures.

use byteorder::{ByteOrder, LittleEndian};
use vstd::prelude::*;

verus! {

/// The little-endian value of the two bytes of `s` at `off`.
pub open spec fn le16(s: Seq<u8>, off: int) -> int {
    s[off] + 256 * s[off + 1]
}

/// The little-endian value of the four bytes of `s` at `off`.
pub open spec fn le32(s: Seq<u8>, off: int) -> int {
    le16(s, off) + 65536 * le16(s, off + 2)
}

/// `s` with the little-endian 16-bit value `v` at `off`.
pub open spec fn put16(s: Seq<u8>, off: int, v: int) -> Seq<u8> {
    s.update(off, (v % 256) as u8).update(off + 1, (v / 256) as u8)
}

/// `s` with the little-endian 32-bit value `v` at `off`.
pub open spec fn put32(s: Seq<u8>, off: int, v: int) -> Seq<u8> {
    put16(put16(s, off, v % 65536), off + 2, v / 65536)
}

/// The value stored little-endian at `off` reads back at `off`, and no
/// other byte changes.
pub proof fn lemma_put32_reads_back(s: Seq<u8>, off: int, v: int)
    requires
        0 <= off,
        off + 4 <= s.len(),
        0 <= v < 0x1_0000_0000,
    ensures
        put32(s, off, v).len() == s.len(),
        le32(put32(s, off, v), off) == v,
        forall|i: int| 0 <= i < s.len() && !(off <= i < off + 4) ==> #[trigger] put32(s, off, v)[i] == s[i],
{
    let lo = v % 65536;
    let hi = v / 65536;
    assert(lo % 256 + 256 * (lo / 256) == lo);
    assert(hi % 256 + 256 * (hi / 256) == hi);
    assert(hi < 65536);
    assert(lo + 65536 * hi == v);
    let t = put32(s, off, v);
    assert(t[off] == (lo % 256) as u8);
    assert(t[off + 1] == (lo / 256) as u8);
    assert(t[off + 2] == (hi % 256) as u8);
    assert(t[off + 3] == (hi / 256) as u8);
}

/// Reads the little-endian `u16` at `off` (`byteorder::LittleEndian::read_u16`).
///
/// Trusted: the crate's `read_u16` takes the first two bytes of its argument,
/// low byte first.
#[verifier::external_body]
pub(crate) fn read_u16_le(data: &[u8], off: usize) -> (r: u16)
    requires
        off + 2 <= data@.len(),
    ensures
        r == le16(data@, off as int),
{
    LittleEndian::read_u16(&data[off..off + 2])
}

/// Reads the little-endian `u32` at `off` (`byteorder::LittleEndian::read_u32`).
///
/// Trusted: the crate's `read_u32` takes the first four bytes of its argument,
/// low byte first.
#[verifier::external_body]
pub(crate) fn read_u32_le(data: &[u8], off: usize) -> (r: u32)
    requires
        off + 4 <= data@.len(),
    ensures
        r == le32(data@, off as int),
{
    LittleEndian::read_u32(&data[off..off + 4])
}

/// Stores `v` little-endian at `off` (`byteorder::LittleEndian::write_u16`).
///
/// Trusted: the crate's `write_u16` writes the low byte of `v`, then the
/// high byte, into the two bytes of its argument, and nothing else.
#[verifier::external_body]
pub(crate) fn write_u16_le(data: &mut [u8], off: usize, v: u16)
    requires
        off + 2 <= old(data)@.len(),
    ensures
        final(data)@ == put16(old(data)@, off as int, v as int),
{
    LittleEndian::write_u16(&mut data[off..off + 2], v)
}

/// Stores `v` little-endian at `off` (`byteorder::LittleEndian::write_u32`).
///
/// Trusted: the crate's `write_u32` writes the four bytes of `v`, lowest
/// first, into the four bytes of its argument, and nothing else.
#[verifier::external_body]
pub(crate) fn write_u32_le(data: &mut [u8], off: usize, v: u32)
    requires
        off + 4 <= old(data)@.len(),
    ensures
        final(data)@ == put32(old(data)@, off as int, v as int),
{
    LittleEndian::write_u32(&mut data[off..off + 4], v)
}

/// The big-endian value of the bytes of `s`.
pub open spec fn be_value(s: Seq<u8>) -> nat
    decreases s.len(),
{
    if s.len() == 0 {
        0
    } else {
        be_value(s.drop_last()) * 256 + s.last() as nat
    }
}

/// 256 to the power `n`.
pub open spec fn pow256(n: nat) -> nat
    decreases n,
{
    if n == 0 {
        1
    } else {
        pow256((n - 1) as nat) * 256
    }
}

/// 256 to the power of 16 or less fits in 128 bits.
proof fn lemma_pow256_bound(n: nat)
    requires
        n <= 16,
    ensures
        pow256(n) <= 0x1_0000_0000_0000_0000_0000_0000_0000_0000,
    decreases 16 - n,
{
    if n < 16 {
        lemma_pow256_bound(n + 1);
        assert(pow256(n + 1) == pow256(n) * 256);
    } else {
        assert(pow256(0) == 1);
        assert(pow256(1) == 0x100);
        assert(pow256(2) == 0x10000);
        assert(pow256(3) == 0x1000000);
        assert(pow256(4) == 0x100000000);
        assert(pow256(5) == 0x10000000000);
        assert(pow256(6) == 0x1000000000000);
        assert(pow256(7) == 0x100000000000000);
        assert(pow256(8) == 0x10000000000000000);
        assert(pow256(9) == 0x1000000000000000000);
        assert(pow256(10) == 0x100000000000000000000);
        assert(pow256(11) == 0x10000000000000000000000);
        assert(pow256(12) == 0x1000000000000000000000000);
        assert(pow256(13) == 0x100000000000000000000000000);
        assert(pow256(14) == 0x10000000000000000000000000000);
        assert(pow256(15) == 0x1000000000000000000000000000000);
        assert(pow256(16) == 0x100000000000000000000000000000000);
    }
}

/// The big-endian `u128` of sixteen bytes (`u128::from_be_bytes`).
pub fn u128_from_be_bytes(bytes: &[u8; 16]) -> (r: u128)
    ensures
        r == be_value(bytes@),
{
    let mut r: u128 = 0;
    let mut i: usize = 0;
    while i < 16
        invariant
            i <= 16,
            bytes@.len() == 16,
            r == be_value(bytes@.take(i as int)),
            r < pow256(i as nat),
        decreases 16 - i,
    {
        let b = bytes[i];
        assert(pow256((i + 1) as nat) == pow256(i as nat) * 256);
        assert(r * 256 + b < pow256(i as nat) * 256) by (nonlinear_arith)
            requires
                r < pow256(i as nat),
                b < 256,
        ;
        proof {
            lemma_pow256_bound((i + 1) as nat);
        }
        assert(bytes@.take(i + 1).drop_last() =~= bytes@.take(i as int));
        r = r * 256 + b as u128;
        i = i + 1;
    }
    assert(bytes@.take(16) =~= bytes@);
    r
}

} // verus!
