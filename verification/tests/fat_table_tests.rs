//! Tests of the dirty flag kept in the File Allocation Table.

use embedded_sdmmc::fat::fat_table::FatTable;
use embedded_sdmmc::fat::FatType;

#[test]
fn fat16_dirty_flag_round_trip() {
    // Second FAT16 entry 0xFFFF: clean volume.
    let mut data = [0xF8u8, 0xFF, 0xFF, 0xFF, 0x12, 0x34];
    {
        let mut table = FatTable::create_from_bytes(&mut data, FatType::Fat16).unwrap();
        assert!(!table.dirty());
        table.set_dirty(true);
        assert!(table.dirty());
    }
    assert_eq!(data, [0xF8, 0xFF, 0xFF, 0x7F, 0x12, 0x34]);
    {
        let mut table = FatTable::create_from_bytes(&mut data, FatType::Fat16).unwrap();
        table.set_dirty(false);
        assert!(!table.dirty());
    }
    assert_eq!(data, [0xF8, 0xFF, 0xFF, 0xFF, 0x12, 0x34]);
}

#[test]
fn fat32_dirty_flag_round_trip() {
    // Second FAT32 entry 0x0FFFFFFF: clean volume.
    let mut data = [0xF8u8, 0xFF, 0xFF, 0x0F, 0xFF, 0xFF, 0xFF, 0x0F, 0xAA];
    {
        let mut table = FatTable::create_from_bytes(&mut data, FatType::Fat32).unwrap();
        assert!(!table.dirty());
        table.set_dirty(true);
        assert!(table.dirty());
    }
    assert_eq!(data, [0xF8, 0xFF, 0xFF, 0x0F, 0xFF, 0xFF, 0xFF, 0x07, 0xAA]);
    {
        let mut table = FatTable::create_from_bytes(&mut data, FatType::Fat32).unwrap();
        table.set_dirty(false);
        assert!(!table.dirty());
        table.set_dirty(false);
        assert!(!table.dirty());
    }
    assert_eq!(data, [0xF8, 0xFF, 0xFF, 0x0F, 0xFF, 0xFF, 0xFF, 0x0F, 0xAA]);
}

#[test]
fn fat16_zeroed_table_reads_dirty() {
    let mut data = [0u8; 4];
    let table = FatTable::create_from_bytes(&mut data, FatType::Fat16).unwrap();
    assert!(table.dirty());
}
