//! Tests of short file names.

use embedded_sdmmc::filesystem::filename::{FilenameError, ShortFileName};

#[test]
fn filename_filename_no_extension() {
    let sfn = ShortFileName { contents: *b"HELLO      " };
    assert_eq!(sfn.to_string(), "HELLO");
    assert_eq!(sfn, ShortFileName::create_from_str("HELLO").unwrap());
    assert_eq!(sfn, ShortFileName::create_from_str("hello").unwrap());
    assert_eq!(sfn, ShortFileName::create_from_str("HeLlO").unwrap());
    assert_eq!(sfn, ShortFileName::create_from_str("HELLO.").unwrap());
}

#[test]
fn filesystem_filename_no_extension() {
    let sfn = ShortFileName { contents: *b"HELLO      " };
    assert_eq!(sfn.to_string(), "HELLO");
    assert_eq!(sfn, ShortFileName::create_from_str("HELLO").unwrap());
    assert_eq!(sfn, ShortFileName::create_from_str("hello").unwrap());
    assert_eq!(sfn, ShortFileName::create_from_str("HeLlO").unwrap());
    assert_eq!(sfn, ShortFileName::create_from_str("HELLO.").unwrap());
}

#[test]
fn filename_filename_extension() {
    let sfn = ShortFileName { contents: *b"HELLO   TXT" };
    assert_eq!(sfn.to_string(), "HELLO.TXT");
    assert_eq!(sfn, ShortFileName::create_from_str("HELLO.TXT").unwrap());
}

#[test]
fn filesystem_filename_extension() {
    let sfn = ShortFileName { contents: *b"HELLO   TXT" };
    assert_eq!(sfn.to_string(), "HELLO.TXT");
    assert_eq!(sfn, ShortFileName::create_from_str("HELLO.TXT").unwrap());
}

#[test]
fn filename_filename_get_extension() {
    let mut sfn = ShortFileName::create_from_str("hello.txt").unwrap();
    assert_eq!(sfn.extension(), "TXT".as_bytes());
    sfn = ShortFileName::create_from_str("hello").unwrap();
    assert_eq!(sfn.extension(), "".as_bytes());
    sfn = ShortFileName::create_from_str("hello.a").unwrap();
    assert_eq!(sfn.extension(), "A".as_bytes());
}

#[test]
fn filename_filename_get_base_name() {
    let mut sfn = ShortFileName::create_from_str("hello.txt").unwrap();
    assert_eq!(sfn.base_name(), "HELLO".as_bytes());
    sfn = ShortFileName::create_from_str("12345678").unwrap();
    assert_eq!(sfn.base_name(), "12345678".as_bytes());
    sfn = ShortFileName::create_from_str("1").unwrap();
    assert_eq!(sfn.base_name(), "1".as_bytes());
}

#[test]
fn filename_filename_fulllength() {
    let sfn = ShortFileName { contents: *b"12345678TXT" };
    assert_eq!(sfn.to_string(), "12345678.TXT");
    assert_eq!(sfn, ShortFileName::create_from_str("12345678.TXT").unwrap());
}

#[test]
fn filesystem_filename_fulllength() {
    let sfn = ShortFileName { contents: *b"12345678TXT" };
    assert_eq!(sfn.to_string(), "12345678.TXT");
    assert_eq!(sfn, ShortFileName::create_from_str("12345678.TXT").unwrap());
}

#[test]
fn filename_filename_short_extension() {
    let sfn = ShortFileName { contents: *b"12345678C  " };
    assert_eq!(sfn.to_string(), "12345678.C");
    assert_eq!(sfn, ShortFileName::create_from_str("12345678.C").unwrap());
}

#[test]
fn filesystem_filename_short_extension() {
    let sfn = ShortFileName { contents: *b"12345678C  " };
    assert_eq!(sfn.to_string(), "12345678.C");
    assert_eq!(sfn, ShortFileName::create_from_str("12345678.C").unwrap());
}

#[test]
fn filename_filename_short() {
    let sfn = ShortFileName { contents: *b"1       C  " };
    assert_eq!(sfn.to_string(), "1.C");
    assert_eq!(sfn, ShortFileName::create_from_str("1.C").unwrap());
}

#[test]
fn filesystem_filename_short() {
    let sfn = ShortFileName { contents: *b"1       C  " };
    assert_eq!(sfn.to_string(), "1.C");
    assert_eq!(sfn, ShortFileName::create_from_str("1.C").unwrap());
}

#[test]
fn filename_empty() {
    assert_eq!(ShortFileName::create_from_str("").unwrap(), ShortFileName::this_dir());
}

#[test]
fn filename_filename_bad() {
    assert!(ShortFileName::create_from_str(" ").is_err());
    assert!(ShortFileName::create_from_str("123456789").is_err());
    assert!(ShortFileName::create_from_str("12345678.ABCD").is_err());
}

#[test]
fn checksum() {
    assert_eq!(0xB3, ShortFileName::create_from_str("UNARCH~1.DAT").unwrap().csum());
}

#[test]
fn filename_errors_name_each_fault() {
    assert_eq!(ShortFileName::create_from_str("a/b"), Err(FilenameError::InvalidCharacter));
    assert_eq!(ShortFileName::create_from_str("123456789"), Err(FilenameError::NameTooLong));
    assert_eq!(ShortFileName::create_from_str(".abc"), Err(FilenameError::MisplacedPeriod));
    assert_eq!(ShortFileName::create_from_str("a.b.c"), Err(FilenameError::MisplacedPeriod));
}

#[test]
fn filename_dot_names() {
    assert_eq!(ShortFileName::create_from_str(".").unwrap(), ShortFileName::this_dir());
    assert_eq!(ShortFileName::create_from_str("..").unwrap(), ShortFileName::parent_dir());
    assert_eq!(ShortFileName::parent_dir().contents, *b"..         ");
}

#[test]
fn filename_mixed_case_keeps_case() {
    let sfn = ShortFileName::create_from_str_mixed_case("boot").unwrap();
    assert_eq!(sfn.contents, *b"boot       ");
    let upper = ShortFileName::create_from_str("boot").unwrap();
    assert_eq!(upper.contents, *b"BOOT       ");
}

#[test]
fn parsed_names_round_trip_through_their_display() {
    for name in ["hello.txt", "A..", "é.x", "..", ".", "", "12345678.ABC", "x.", "Ab~1.dat"] {
        let sfn = ShortFileName::create_from_str(name).unwrap();
        let shown = sfn.to_string();
        assert_eq!(ShortFileName::create_from_str(&shown).unwrap(), sfn, "{}", name);
    }
}

#[test]
fn plain_parser_agrees_with_mixed_case_parser_on_upper_case() {
    for name in ["hello.txt", "ReadMe", "a1b2.c", "UPPER.TXT"] {
        assert_eq!(
            ShortFileName::create_from_str(name),
            ShortFileName::create_from_str_mixed_case(&name.to_ascii_uppercase())
        );
    }
}
