//! How numbers and names are written out as characters: decimal and
//! hexadecimal digits, padding, and the `String` that holds the result.

use vstd::prelude::*;
use vstd::string::StrSliceExecFns;

verus! {

/// Build a `String` holding the given characters, with std's
/// `String::from_iter` over `char`s. Trusted: its contract claims that the
/// string holds exactly those characters, in order, as std documents for
/// collecting characters into a `String`.
#[verifier::external_body]
pub(crate) fn string_from_chars(chars: &Vec<char>) -> (s: String)
    ensures
        s@ == chars@,
{
    String::from_iter(chars.iter())
}

/// The decimal digits of `n`, most significant first, without leading zeros.
pub open spec fn decimal(n: nat) -> Seq<char>
    decreases n,
{
    if n < 10 {
        seq![(48 + n) as char]
    } else {
        decimal(n / 10) + seq![(48 + n % 10) as char]
    }
}

/// The decimal digits of `n`, with a leading zero below ten.
pub open spec fn two_digits(n: nat) -> Seq<char> {
    if n < 10 {
        seq!['0'] + decimal(n)
    } else {
        decimal(n)
    }
}

/// Sixteen to the power `n`.
pub open spec fn pow16(n: nat) -> nat
    decreases n,
{
    if n == 0 {
        1
    } else {
        16 * pow16((n - 1) as nat)
    }
}

/// Every power of sixteen is at least one.
proof fn lemma_pow16_pos(n: nat)
    ensures
        pow16(n) >= 1,
    decreases n,
{
    if n > 0 {
        lemma_pow16_pos((n - 1) as nat);
    }
}

/// The lower-case hexadecimal digit for `d`, which is below sixteen.
pub open spec fn hex_digit(d: int) -> char {
    if d < 10 {
        (48 + d) as char
    } else {
        (87 + d) as char
    }
}

/// `v` as eight hexadecimal digits, most significant first.
pub open spec fn hex8(v: u32) -> Seq<char> {
    Seq::new(8, |i: int| hex_digit(((v as nat / pow16((7 - i) as nat)) % 16) as int))
}

/// `label` padded with spaces on the right to eight characters.
pub open spec fn padded8(label: Seq<char>) -> Seq<char> {
    label + Seq::new((8 - label.len()) as nat, |i: int| ' ')
}

/// Append the decimal digits of `n`.
pub(crate) fn push_decimal(out: &mut Vec<char>, n: u32)
    ensures
        final(out)@ == old(out)@ + decimal(n as nat),
    decreases n,
{
    if n >= 10 {
        push_decimal(out, n / 10);
    }
    let d = (n % 10) as u8;
    out.push((48 + d) as char);
    assert(final(out)@ =~= old(out)@ + decimal(n as nat));
}

/// Append the decimal digits of `n`, with a leading zero below ten.
pub(crate) fn push_two_digits(out: &mut Vec<char>, n: u32)
    ensures
        final(out)@ == old(out)@ + two_digits(n as nat),
{
    if n < 10 {
        out.push('0');
    }
    push_decimal(out, n);
    assert(final(out)@ =~= old(out)@ + two_digits(n as nat));
}

/// Append `label`, padded with spaces to eight characters.
pub(crate) fn push_padded8(out: &mut Vec<char>, label: &[char])
    requires
        label@.len() <= 8,
    ensures
        final(out)@ == old(out)@ + padded8(label@),
{
    let ghost start = out@;
    let mut i: usize = 0;
    while i < label.len()
        invariant
            i <= label@.len(),
            out@ == start + label@.take(i as int),
        decreases label@.len() - i,
    {
        out.push(label[i]);
        i = i + 1;
        assert(label@.take(i as int) =~= label@.take(i - 1) + seq![label@[i - 1]]);
    }
    let mut n: usize = i;
    while n < 8
        invariant
            label@.len() <= n <= 8,
            out@ == start + label@ + Seq::new((n - label@.len()) as nat, |j: int| ' '),
        decreases 8 - n,
    {
        out.push(' ');
        n = n + 1;
        assert(Seq::new((n - label@.len()) as nat, |j: int| ' ') =~= Seq::new(
            (n - 1 - label@.len()) as nat,
            |j: int| ' ',
        ).push(' '));
    }
    assert(label@.take(label@.len() as int) =~= label@);
}

/// Append `v` as eight hexadecimal digits.
pub(crate) fn push_hex8(out: &mut Vec<char>, v: u32)
    ensures
        final(out)@ == old(out)@ + hex8(v),
{
    let ghost start = out@;
    let mut p: u32 = 0x1000_0000;
    let mut i: usize = 0;
    assert(pow16(7) == 0x1000_0000) by {
        reveal_with_fuel(pow16, 8);
    }
    while i < 8
        invariant
            i <= 8,
            i < 8 ==> p == pow16((7 - i) as nat),
            p >= 1,
            out@ == start + hex8(v).take(i as int),
        decreases 8 - i,
    {
        let d = (v / p) % 16;
        let c = if d < 10 {
            ((48 + d) as u8) as char
        } else {
            ((87 + d) as u8) as char
        };
        out.push(c);
        assert(hex8(v).take(i + 1) =~= hex8(v).take(i as int).push(c));
        i = i + 1;
        if i < 8 {
            proof {
                assert(pow16((8 - i) as nat) == 16 * pow16((7 - i) as nat));
                lemma_pow16_pos((7 - i) as nat);
            }
            p = p / 16;
        }
    }
    assert(hex8(v).take(8) =~= hex8(v));
}


/// `true` or `false`, as `bool` is shown.
pub open spec fn bool_chars(b: bool) -> Seq<char> {
    if b {
        seq!['t', 'r', 'u', 'e']
    } else {
        seq!['f', 'a', 'l', 's', 'e']
    }
}

/// Append the characters of `s`.
pub(crate) fn push_str(out: &mut Vec<char>, s: &str)
    ensures
        final(out)@ == old(out)@ + s@,
{
    let ghost start = out@;
    let n = s.unicode_len();
    let mut i: usize = 0;
    while i < n
        invariant
            n == s@.len(),
            i <= n,
            out@ == start + s@.take(i as int),
        decreases n - i,
    {
        out.push(s.get_char(i));
        i = i + 1;
        assert(s@.take(i as int) =~= s@.take(i - 1) + seq![s@[i - 1]]);
    }
    assert(s@.take(n as int) =~= s@);
}

/// Append `true` or `false`.
pub(crate) fn push_bool(out: &mut Vec<char>, b: bool)
    ensures
        final(out)@ == old(out)@ + bool_chars(b),
{
    if b {
        out.push('t');
        out.push('r');
        out.push('u');
        out.push('e');
    } else {
        out.push('f');
        out.push('a');
        out.push('l');
        out.push('s');
        out.push('e');
    }
    assert(final(out)@ =~= old(out)@ + bool_chars(b));
}

} // verus!
