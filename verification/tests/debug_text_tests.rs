//! Tests of how attributes, clusters, timestamps and on-disk entries are
//! written out, each held against the pattern built with `format!`.

use embedded_sdmmc::fat::ondiskdirentry::OnDiskDirEntry;
use embedded_sdmmc::{Attributes, ClusterId, Timestamp};

#[test]
fn attribute_letters() {
    assert_eq!(Attributes(0x00).debug_string(), "F");
    assert_eq!(Attributes(0x10).debug_string(), "D");
    assert_eq!(Attributes(0x31).debug_string(), "DRA");
    assert_eq!(Attributes(0x27).debug_string(), "FRHSA");
    assert_eq!(Attributes(0x08).debug_string(), "FV");
    assert_eq!(Attributes(0x0F).debug_string(), "LFN");
    assert_eq!(Attributes(0x3F).debug_string(), "LFN");
}

#[test]
fn reserved_clusters_are_named() {
    assert_eq!(
        ClusterId(0xFFFF_FFF6).debug_string(),
        format!("ClusterId({:08})", "INVALID")
    );
    assert_eq!(ClusterId(0xFFFF_FFF7).debug_string(), format!("ClusterId({:08})", "BAD"));
    assert_eq!(ClusterId(0).debug_string(), format!("ClusterId({:08})", "EMPTY"));
    assert_eq!(ClusterId(0xFFFF_FFFC).debug_string(), format!("ClusterId({:08})", "ROOT"));
    assert_eq!(ClusterId(0xFFFF_FFFF).debug_string(), format!("ClusterId({:08})", "EOF"));
    assert_eq!(ClusterId(0xFFFF_FFF7).debug_string(), "ClusterId(BAD     )");
}

#[test]
fn other_clusters_are_hexadecimal() {
    for v in [1u32, 2, 0x1234, 0xABCDEF, 0x0FFF_FFFF, 0xFFFF_FFF5, 0xFFFF_FFFE] {
        assert_eq!(ClusterId(v).debug_string(), format!("ClusterId({:08x})", v));
    }
    assert_eq!(ClusterId(0x1234).debug_string(), "ClusterId(00001234)");
}

fn displayed(t: &Timestamp) -> String {
    format!(
        "{}-{:02}-{:02} {:02}:{:02}:{:02}",
        u16::from(t.year_since_1970) + 1970,
        t.zero_indexed_month + 1,
        t.zero_indexed_day + 1,
        t.hours,
        t.minutes,
        t.seconds
    )
}

#[test]
fn timestamp_display() {
    let t = Timestamp {
        year_since_1970: 53,
        zero_indexed_month: 2,
        zero_indexed_day: 9,
        hours: 7,
        minutes: 0,
        seconds: 59,
    };
    assert_eq!(t.to_string(), "2023-03-10 07:00:59");
    assert_eq!(t.debug_string(), "Timestamp(2023-03-10 07:00:59)");
    let cases = [
        Timestamp { year_since_1970: 0, zero_indexed_month: 0, zero_indexed_day: 0, hours: 0, minutes: 0, seconds: 0 },
        Timestamp { year_since_1970: 255, zero_indexed_month: 11, zero_indexed_day: 30, hours: 23, minutes: 59, seconds: 58 },
        Timestamp { year_since_1970: 30, zero_indexed_month: 100, zero_indexed_day: 254, hours: 255, minutes: 100, seconds: 9 },
    ];
    for t in cases.iter() {
        assert_eq!(t.to_string(), displayed(t));
        assert_eq!(t.debug_string(), format!("Timestamp({})", displayed(t)));
    }
}

#[test]
fn on_disk_entry_debug() {
    let mut data = [0u8; 32];
    data[..11].copy_from_slice(b"README  TXT");
    data[11] = 0x21;
    data[14..16].copy_from_slice(&0x1234u16.to_le_bytes());
    data[16..18].copy_from_slice(&0x5678u16.to_le_bytes());
    data[18..20].copy_from_slice(&7u16.to_le_bytes());
    data[20..22].copy_from_slice(&1u16.to_le_bytes());
    data[22..24].copy_from_slice(&0x9ABCu16.to_le_bytes());
    data[24..26].copy_from_slice(&0xDEF0u16.to_le_bytes());
    data[26..28].copy_from_slice(&5u16.to_le_bytes());
    data[28..32].copy_from_slice(&123456u32.to_le_bytes());
    let entry = OnDiskDirEntry::new(&data);
    let expected = format!(
        "OnDiskDirEntry<raw_attr = {}, create_time = {}, create_date = {}, last_access_data = {}, \
         first_cluster_hi = {}, write_time = {}, write_date = {}, first_cluster_lo = {}, \
         file_size = {}, is_end = {}, is_valid = {}, is_lfn = {}, \
         first_cluster_fat32 = ClusterId({:08x}), first_cluster_fat16 = ClusterId({:08x})>",
        0x21, 0x1234, 0x5678, 7, 1, 0x9ABC, 0xDEF0, 5, 123456, false, true, false, 0x10005u32, 5u32
    );
    assert_eq!(entry.debug_string(), expected);
}

#[test]
fn end_marker_entry_debug() {
    let data = [0u8; 32];
    let entry = OnDiskDirEntry::new(&data);
    let expected = format!(
        "OnDiskDirEntry<raw_attr = 0, create_time = 0, create_date = 0, last_access_data = 0, \
         first_cluster_hi = 0, write_time = 0, write_date = 0, first_cluster_lo = 0, \
         file_size = 0, is_end = true, is_valid = false, is_lfn = false, \
         first_cluster_fat32 = ClusterId({:08}), first_cluster_fat16 = ClusterId({:08})>",
        "EMPTY", "EMPTY"
    );
    assert_eq!(entry.debug_string(), expected);
}
