//! Tests of Long File Name assembly.

use embedded_sdmmc::LfnBuffer;

#[test]
fn one_piece() {
    let mut storage = [0u8; 64];
    let mut buf: LfnBuffer = LfnBuffer::new(&mut storage);
    buf.push(&[
        0x0030, 0x0031, 0x0032, 0x0033, 0x2202, 0x0000, 0xFFFF, 0xFFFF, 0xFFFF, 0xFFFF, 0xFFFF,
        0xFFFF, 0xFFFF,
    ]);
    assert_eq!(buf.as_str(), "0123∂");
}

#[test]
fn two_piece() {
    let mut storage = [0u8; 64];
    let mut buf: LfnBuffer = LfnBuffer::new(&mut storage);
    buf.push(&[
        0x0030, 0x0031, 0x0032, 0x0033, 0x2202, 0x0000, 0xFFFF, 0xFFFF, 0xFFFF, 0xFFFF, 0xFFFF,
        0xFFFF, 0xFFFF,
    ]);
    buf.push(&[
        0x0041, 0x0042, 0x0043, 0x0044, 0x0045, 0x0046, 0x0047, 0x0048, 0x0049, 0x004a, 0x004b,
        0x004c, 0x004d,
    ]);
    assert_eq!(buf.as_str(), "ABCDEFGHIJKLM0123∂");
}

#[test]
fn lfn_empty_buffer_is_empty_string() {
    let mut storage = [0u8; 16];
    let buf = LfnBuffer::new(&mut storage);
    assert_eq!(buf.as_str(), "");
}

#[test]
fn lfn_overflow_gives_empty_string_until_cleared() {
    let mut storage = [0u8; 8];
    let mut buf = LfnBuffer::new(&mut storage);
    // 13 ASCII characters need 13 bytes: more than the 8 available.
    buf.push(&[
        0x0041, 0x0042, 0x0043, 0x0044, 0x0045, 0x0046, 0x0047, 0x0048, 0x0049, 0x004a, 0x004b,
        0x004c, 0x004d,
    ]);
    assert_eq!(buf.as_str(), "");
    buf.clear();
    assert_eq!(buf.as_str(), "");
    buf.push(&[
        0x0061, 0x0062, 0x0000, 0xFFFF, 0xFFFF, 0xFFFF, 0xFFFF, 0xFFFF, 0xFFFF, 0xFFFF, 0xFFFF,
        0xFFFF, 0xFFFF,
    ]);
    assert_eq!(buf.as_str(), "ab");
}

#[test]
fn lfn_exact_fit() {
    let mut storage = [0u8; 5];
    let mut buf = LfnBuffer::new(&mut storage);
    // "a∂" is one byte plus three bytes; then "b" fills the last byte.
    buf.push(&[
        0x0061, 0x2202, 0x0000, 0, 0, 0, 0, 0, 0, 0, 0, 0, 0,
    ]);
    buf.push(&[0x0062, 0x0000, 0, 0, 0, 0, 0, 0, 0, 0, 0, 0, 0]);
    assert_eq!(buf.as_str(), "ba∂");
    buf.push(&[0x0063, 0x0000, 0, 0, 0, 0, 0, 0, 0, 0, 0, 0, 0]);
    assert_eq!(buf.as_str(), "");
}

#[test]
fn lfn_surrogate_becomes_question_mark() {
    let mut storage = [0u8; 32];
    let mut buf = LfnBuffer::new(&mut storage);
    buf.push(&[
        0x0078, 0xD800, 0x00E9, 0x0000, 0, 0, 0, 0, 0, 0, 0, 0, 0,
    ]);
    assert_eq!(buf.as_str(), "x?é");
}

#[test]
fn lfn_leading_null_pushes_nothing() {
    let mut storage = [0u8; 32];
    let mut buf = LfnBuffer::new(&mut storage);
    buf.push(&[0x0041, 0x0000, 0, 0, 0, 0, 0, 0, 0, 0, 0, 0, 0]);
    buf.push(&[0x0000, 0x0042, 0, 0, 0, 0, 0, 0, 0, 0, 0, 0, 0]);
    assert_eq!(buf.as_str(), "A");
}
