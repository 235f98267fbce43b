//! Tests of the Card IDentification register.

use embedded_sdmmc::sdcard::cid::{ChecksumInvalidError, Cid};

#[test]
fn basic_test() {
    // CID retrieved from a real SD card.
    let raw_cid = [
        0x12, 0x34, 0x56, 0x41, 0x53, 0x54, 0x43, 0x0, 0x20, 0x0, 0x0, 0xc, 0xef, 0x1, 0x65,
        0xef,
    ];
    // This also verifies the checksum.
    let cid = Cid::new(&raw_cid);
    assert!(cid.is_ok());

    let cid = cid.unwrap();
    // Manufacturer 0x12: Patriot.
    assert_eq!(cid.manufacturer_id(), 0x12);
    assert_eq!(cid.oem_id(), 0x3456);

    let product_name_raw = cid.product_name_bytes();
    let product_name = core::str::from_utf8(&product_name_raw).unwrap();
    assert_eq!(product_name, "ASTC\0");
}

#[test]
fn basic_test_unchecked() {
    // CID retrieved from a real SD card.
    let raw_cid = [
        0x12, 0x34, 0x56, 0x41, 0x53, 0x54, 0x43, 0x0, 0x20, 0x0, 0x0, 0xc, 0xef, 0x1, 0x65,
        0x00,
    ];
    // Invalid checksum ignored.
    let cid = Cid::new_unchecked(&raw_cid);
    assert!(!cid.verify_crc7());

    // Manufacturer 0x12: Patriot.
    assert_eq!(cid.manufacturer_id(), 0x12);
    assert_eq!(cid.oem_id(), 0x3456);

    let product_name_raw = cid.product_name_bytes();
    let product_name = core::str::from_utf8(&product_name_raw).unwrap();
    assert_eq!(product_name, "ASTC\0");
}

#[test]
fn cid_fields_and_checksum_error() {
    let raw_cid = [
        0x12, 0x34, 0x56, 0x41, 0x53, 0x54, 0x43, 0x0, 0x20, 0x0, 0x0, 0xc, 0xef, 0x1, 0x65,
        0x00,
    ];
    assert_eq!(Cid::new(&raw_cid), Err(ChecksumInvalidError));
    let cid = Cid::new_unchecked(&raw_cid);
    assert_eq!(cid.raw_value(), u128::from_be_bytes(raw_cid));
    assert_eq!(cid.product_name_raw(), 0x41_5354_4300);
    assert_eq!(cid.product_serial_number(), 0x0000_0cef);
    assert_eq!(cid.manufacturing_date(), 0x165);
    assert_eq!(cid.crc7(), 0);
    let good = Cid::new_with_raw_value(u128::from_be_bytes(raw_cid) | 0xef);
    assert!(good.verify_crc7());
    assert_eq!(good.crc7(), 0x77);
}
