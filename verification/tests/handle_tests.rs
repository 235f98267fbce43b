//! Tests of handle generation.

use embedded_sdmmc::{Handle, HandleGenerator};

#[test]
fn handles_count_up_from_the_offset_and_wrap() {
    let mut g = HandleGenerator::new(u32::MAX - 1);
    let a = g.generate();
    let b = g.generate();
    let c = g.generate();
    assert_eq!(a.0, u32::MAX - 1);
    assert_eq!(b.0, u32::MAX);
    assert_eq!(c.0, 0);
    let mut g = HandleGenerator::new(7);
    let hs: Vec<Handle> = (0..100).map(|_| g.generate()).collect();
    for (k, h) in hs.iter().enumerate() {
        assert_eq!(h.0, 7u32.wrapping_add(k as u32));
    }
}
