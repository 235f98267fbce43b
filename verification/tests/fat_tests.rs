//! Tests of the FAT structures and of the volume logic on a device in memory.

use embedded_sdmmc::blockdevice::BlockIdx;
use embedded_sdmmc::fat::bpb::Bpb;
use embedded_sdmmc::fat::ondiskdirentry::OnDiskDirEntry;
use embedded_sdmmc::fat::FatType;
use embedded_sdmmc::filesystem::attributes::Attributes;
use embedded_sdmmc::filesystem::cluster::ClusterId;
use embedded_sdmmc::filesystem::directory::DirEntry;
use embedded_sdmmc::filesystem::filename::ShortFileName;
use embedded_sdmmc::filesystem::timestamp::Timestamp;

/// A Boot Parameter Block taken from a Raspberry Pi bootable SD card.
const BPB_EXAMPLE: [u8; 512] = [
    0xeb, 0x3c, 0x90, 0x6d, 0x6b, 0x66, 0x73, 0x2e, 0x66, 0x61, 0x74, 0x00, 0x02, 0x10,
    0x01, 0x00, 0x02, 0x00, 0x02, 0x00, 0x00, 0xf8, 0x20, 0x00, 0x3f, 0x00, 0xff, 0x00,
    0x00, 0x00, 0x00, 0x00, 0x00, 0xe0, 0x01, 0x00, 0x80, 0x01, 0x29, 0xbb, 0xb0, 0x71,
    0x77, 0x62, 0x6f, 0x6f, 0x74, 0x20, 0x20, 0x20, 0x20, 0x20, 0x20, 0x20, 0x46, 0x41,
    0x54, 0x31, 0x36, 0x20, 0x20, 0x20, 0x0e, 0x1f, 0xbe, 0x5b, 0x7c, 0xac, 0x22, 0xc0,
    0x74, 0x0b, 0x56, 0xb4, 0x0e, 0xbb, 0x07, 0x00, 0xcd, 0x10, 0x5e, 0xeb, 0xf0, 0x32,
    0xe4, 0xcd, 0x16, 0xcd, 0x19, 0xeb, 0xfe, 0x54, 0x68, 0x69, 0x73, 0x20, 0x69, 0x73,
    0x20, 0x6e, 0x6f, 0x74, 0x20, 0x61, 0x20, 0x62, 0x6f, 0x6f, 0x74, 0x61, 0x62, 0x6c,
    0x65, 0x20, 0x64, 0x69, 0x73, 0x6b, 0x2e, 0x20, 0x20, 0x50, 0x6c, 0x65, 0x61, 0x73,
    0x65, 0x20, 0x69, 0x6e, 0x73, 0x65, 0x72, 0x74, 0x20, 0x61, 0x20, 0x62, 0x6f, 0x6f,
    0x74, 0x61, 0x62, 0x6c, 0x65, 0x20, 0x66, 0x6c, 0x6f, 0x70, 0x70, 0x79, 0x20, 0x61,
    0x6e, 0x64, 0x0d, 0x0a, 0x70, 0x72, 0x65, 0x73, 0x73, 0x20, 0x61, 0x6e, 0x79, 0x20,
    0x6b, 0x65, 0x79, 0x20, 0x74, 0x6f, 0x20, 0x74, 0x72, 0x79, 0x20, 0x61, 0x67, 0x61,
    0x69, 0x6e, 0x20, 0x2e, 0x2e, 0x2e, 0x20, 0x0d, 0x0a, 0x00, 0x00, 0x00, 0x00, 0x00,
    0x00, 0x00, 0x00, 0x00, 0x00, 0x00, 0x00, 0x00, 0x00, 0x00, 0x00, 0x00, 0x00, 0x00,
    0x00, 0x00, 0x00, 0x00, 0x00, 0x00, 0x00, 0x00, 0x00, 0x00, 0x00, 0x00, 0x00, 0x00,
    0x00, 0x00, 0x00, 0x00, 0x00, 0x00, 0x00, 0x00, 0x00, 0x00, 0x00, 0x00, 0x00, 0x00,
    0x00, 0x00, 0x00, 0x00, 0x00, 0x00, 0x00, 0x00, 0x00, 0x00, 0x00, 0x00, 0x00, 0x00,
    0x00, 0x00, 0x00, 0x00, 0x00, 0x00, 0x00, 0x00, 0x00, 0x00, 0x00, 0x00, 0x00, 0x00,
    0x00, 0x00, 0x00, 0x00, 0x00, 0x00, 0x00, 0x00, 0x00, 0x00, 0x00, 0x00, 0x00, 0x00,
    0x00, 0x00, 0x00, 0x00, 0x00, 0x00, 0x00, 0x00, 0x00, 0x00, 0x00, 0x00, 0x00, 0x00,
    0x00, 0x00, 0x00, 0x00, 0x00, 0x00, 0x00, 0x00, 0x00, 0x00, 0x00, 0x00, 0x00, 0x00,
    0x00, 0x00, 0x00, 0x00, 0x00, 0x00, 0x00, 0x00, 0x00, 0x00, 0x00, 0x00, 0x00, 0x00,
    0x00, 0x00, 0x00, 0x00, 0x00, 0x00, 0x00, 0x00, 0x00, 0x00, 0x00, 0x00, 0x00, 0x00,
    0x00, 0x00, 0x00, 0x00, 0x00, 0x00, 0x00, 0x00, 0x00, 0x00, 0x00, 0x00, 0x00, 0x00,
    0x00, 0x00, 0x00, 0x00, 0x00, 0x00, 0x00, 0x00, 0x00, 0x00, 0x00, 0x00, 0x00, 0x00,
    0x00, 0x00, 0x00, 0x00, 0x00, 0x00, 0x00, 0x00, 0x00, 0x00, 0x00, 0x00, 0x00, 0x00,
    0x00, 0x00, 0x00, 0x00, 0x00, 0x00, 0x00, 0x00, 0x00, 0x00, 0x00, 0x00, 0x00, 0x00,
    0x00, 0x00, 0x00, 0x00, 0x00, 0x00, 0x00, 0x00, 0x00, 0x00, 0x00, 0x00, 0x00, 0x00,
    0x00, 0x00, 0x00, 0x00, 0x00, 0x00, 0x00, 0x00, 0x00, 0x00, 0x00, 0x00, 0x00, 0x00,
    0x00, 0x00, 0x00, 0x00, 0x00, 0x00, 0x00, 0x00, 0x00, 0x00, 0x00, 0x00, 0x00, 0x00,
    0x00, 0x00, 0x00, 0x00, 0x00, 0x00, 0x00, 0x00, 0x00, 0x00, 0x00, 0x00, 0x00, 0x00,
    0x00, 0x00, 0x00, 0x00, 0x00, 0x00, 0x00, 0x00, 0x00, 0x00, 0x00, 0x00, 0x00, 0x00,
    0x00, 0x00, 0x00, 0x00, 0x00, 0x00, 0x00, 0x00, 0x00, 0x00, 0x00, 0x00, 0x00, 0x00,
    0x00, 0x00, 0x00, 0x00, 0x00, 0x00, 0x00, 0x00, 0x00, 0x00, 0x00, 0x00, 0x00, 0x00,
    0x00, 0x00, 0x00, 0x00, 0x00, 0x00, 0x00, 0x00, 0x00, 0x00, 0x00, 0x00, 0x00, 0x00,
    0x00, 0x00, 0x00, 0x00, 0x00, 0x00, 0x55, 0xaa,
];

/// A directory listing from a Raspberry Pi boot partition, one entry per
/// string.
const DIR_ENTRIES_HEX: [&str; 16] = [
    "626f6f7420202020202020080000699c754775470000699c7547000000000000",
    "416f007600650072006c000f00476100790073000000ffffffff0000ffffffff",
    "4f5645524c4159532020201000001b9f6148614800001b9f6148030000000000",
    "422d0070006c00750073000f00792e006400740062000000ffff0000ffffffff",
    "01620063006d00320037000f0079300038002d0072007000690000002d006200",
    "42434d3237307e31445442200064119f614861480000119f61480900702b0000",
    "4143004f005000590049000f00124e0047002e006c0069006e00000075007800",
    "434f5059494e7e314c494e2000000f9f6148614800000f9f6148050005490000",
    "4263006f006d000000ffff0f0067ffffffffffffffffffffffff0000ffffffff",
    "014c004900430045004e000f0067430045002e00620072006f00000061006400",
    "4c4943454e437e3142524f200000119f614861480000119f61480800d6050000",
    "422d0062002e00640074000f001962000000ffffffffffffffff0000ffffffff",
    "01620063006d00320037000f0019300039002d0072007000690000002d003200",
    "42434d3237307e34445442200064129f614861480000129f61480f004c2f0000",
    "422e0064007400620000000f0059ffffffffffffffffffffffff0000ffffffff",
    "01620063006d00320037000f0059300038002d0072007000690000002d006200"
];

fn parse(lines: &[&str]) -> Vec<u8> {
    let mut out = Vec::new();
    for line in lines {
        let bytes = line.as_bytes();
        for pair in bytes.chunks(2) {
            let s = std::str::from_utf8(pair).unwrap();
            out.push(u8::from_str_radix(s, 16).unwrap());
        }
    }
    out
}

#[derive(Debug)]
enum Expected {
    Lfn(bool, u8, [char; 13]),
    Short(DirEntry),
}

fn short(name: ShortFileName, cal: (u16, u8, u8, u8, u8, u8), attributes: u8, cluster: u32, size: u32) -> Expected {
    let t = Timestamp::from_calendar(cal.0, cal.1, cal.2, cal.3, cal.4, cal.5).unwrap();
    Expected::Short(DirEntry {
        name,
        mtime: t,
        ctime: t,
        attributes: Attributes::create_from_fat(attributes),
        cluster: ClusterId(cluster),
        size,
        entry_block: BlockIdx(0),
        entry_offset: 0,
    })
}

fn expected_dir_entries() -> Vec<Expected> {
    let f = '\u{ffff}';
    let z = '\u{0000}';
    vec![
        short(ShortFileName::create_from_str_mixed_case("boot").unwrap(), (2015, 11, 21, 19, 35, 18), Attributes::VOLUME, 0, 0),
        Expected::Lfn(true, 1, ['o', 'v', 'e', 'r', 'l', 'a', 'y', 's', z, f, f, f, f]),
        short(ShortFileName::create_from_str("OVERLAYS").unwrap(), (2016, 3, 1, 19, 56, 54), Attributes::DIRECTORY, 3, 0),
        Expected::Lfn(true, 2, ['-', 'p', 'l', 'u', 's', '.', 'd', 't', 'b', z, f, f, f]),
        Expected::Lfn(false, 1, ['b', 'c', 'm', '2', '7', '0', '8', '-', 'r', 'p', 'i', '-', 'b']),
        short(ShortFileName::create_from_str("BCM270~1.DTB").unwrap(), (2016, 3, 1, 19, 56, 34), Attributes::ARCHIVE, 9, 11120),
        Expected::Lfn(true, 1, ['C', 'O', 'P', 'Y', 'I', 'N', 'G', '.', 'l', 'i', 'n', 'u', 'x']),
        short(ShortFileName::create_from_str("COPYIN~1.LIN").unwrap(), (2016, 3, 1, 19, 56, 30), Attributes::ARCHIVE, 5, 18693),
        Expected::Lfn(true, 2, ['c', 'o', 'm', z, f, f, f, f, f, f, f, f, f]),
        Expected::Lfn(false, 1, ['L', 'I', 'C', 'E', 'N', 'C', 'E', '.', 'b', 'r', 'o', 'a', 'd']),
        short(ShortFileName::create_from_str("LICENC~1.BRO").unwrap(), (2016, 3, 1, 19, 56, 34), Attributes::ARCHIVE, 8, 1494),
        Expected::Lfn(true, 2, ['-', 'b', '.', 'd', 't', 'b', z, f, f, f, f, f, f]),
        Expected::Lfn(false, 1, ['b', 'c', 'm', '2', '7', '0', '9', '-', 'r', 'p', 'i', '-', '2']),
        short(ShortFileName::create_from_str("BCM270~4.DTB").unwrap(), (2016, 3, 1, 19, 56, 36), Attributes::ARCHIVE, 15, 12108),
        Expected::Lfn(true, 2, ['.', 'd', 't', 'b', z, f, f, f, f, f, f, f, f]),
        Expected::Lfn(false, 1, ['b', 'c', 'm', '2', '7', '0', '8', '-', 'r', 'p', 'i', '-', 'b']),
    ]
}

fn check_dir_entries() {
    let data = parse(&DIR_ENTRIES_HEX);
    let results = expected_dir_entries();
    assert_eq!(results.len(), 16);
    for (part, expected) in data.chunks(OnDiskDirEntry::LEN).zip(results.iter()) {
        let on_disk_entry = OnDiskDirEntry::new(part);
        match expected {
            Expected::Lfn(start, index, contents) if on_disk_entry.is_lfn() => {
                let (calc_start, calc_index, calc_contents) = on_disk_entry.lfn_contents().unwrap();
                assert_eq!(*start, calc_start);
                assert_eq!(*index, calc_index);
                assert_eq!(*contents, calc_contents);
            }
            Expected::Short(expected_entry) if !on_disk_entry.is_lfn() => {
                let parsed_entry = on_disk_entry.get_entry(FatType::Fat32, BlockIdx(0), 0);
                assert_eq!(*expected_entry, parsed_entry);
            }
            _ => {
                panic!("Bad dir entry, expected:\n{:#?}", expected);
            }
        }
    }
}

#[test]
fn mod_test_dir_entries() {
    check_dir_entries();
}

#[test]
fn fat_test_dir_entries() {
    check_dir_entries();
}

#[test]
fn mod_test_bpb() {
    let bpb = Bpb::create_from_bytes(&BPB_EXAMPLE).unwrap();
    assert_eq!(bpb.footer(), Bpb::FOOTER_VALUE);
    assert_eq!(bpb.oem_name(), b"mkfs.fat");
    assert_eq!(bpb.bytes_per_block(), 512);
    assert_eq!(bpb.blocks_per_cluster(), 16);
    assert_eq!(bpb.reserved_block_count(), 1);
    assert_eq!(bpb.num_fats(), 2);
    assert_eq!(bpb.root_entries_count(), 512);
    assert_eq!(bpb.total_blocks16(), 0);
    assert_eq!(bpb.fat_size16(), 32);
    assert_eq!(bpb.total_blocks32(), 122_880);
    assert_eq!(bpb.footer(), 0xAA55);
    assert_eq!(bpb.volume_label(), b"boot       ");
    assert_eq!(bpb.fat_size(), 32);
    assert_eq!(bpb.total_blocks(), 122_880);
    assert_eq!(bpb.fat_type, FatType::Fat16);
}

#[test]
fn fat_test_bpb() {
    let bpb = Bpb::create_from_bytes(&BPB_EXAMPLE).unwrap();
    assert_eq!(bpb.footer(), Bpb::FOOTER_VALUE);
    assert_eq!(bpb.oem_name(), b"mkfs.fat");
    assert_eq!(bpb.bytes_per_block(), 512);
    assert_eq!(bpb.blocks_per_cluster(), 16);
    assert_eq!(bpb.reserved_block_count(), 1);
    assert_eq!(bpb.num_fats(), 2);
    assert_eq!(bpb.root_entries_count(), 512);
    assert_eq!(bpb.total_blocks16(), 0);
    assert!((bpb.media() & 0xF0) == 0xF0);
    assert_eq!(bpb.fat_size16(), 32);
    assert_eq!(bpb.blocks_per_track(), 63);
    assert_eq!(bpb.num_heads(), 255);
    assert_eq!(bpb.hidden_blocks(), 0);
    assert_eq!(bpb.total_blocks32(), 122880);
    assert_eq!(bpb.footer(), 0xAA55);
    assert_eq!(bpb.drive_number(), 0x80);
    assert_eq!(bpb.boot_signature(), 0x29);
    assert_eq!(bpb.volume_id(), 0x7771B0BB);
    assert_eq!(bpb.volume_label(), b"boot       ");
    assert_eq!(bpb.fs_type(), b"FAT16   ");
    assert_eq!(bpb.fat_size(), 32);
    assert_eq!(bpb.total_blocks(), 122880);
    assert_eq!(bpb.fat_type, FatType::Fat16);
}

#[test]
fn short_slices_match_names() {
    let sfn = ShortFileName::create_from_str("HELLO.TXT").unwrap();
    let eleven: &[u8] = b"HELLO   TXT";
    assert!(OnDiskDirEntry::new(eleven).matches(&sfn));
    assert!(!OnDiskDirEntry::new(&b"hello   TXT"[..]).matches(&sfn));
    let mut full = [0u8; 32];
    full[..11].copy_from_slice(b"HELLO   TXT");
    assert!(OnDiskDirEntry::new(&full).matches(&sfn));
}
