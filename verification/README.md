# embedded-sdmmc (verified core)

A FAT16/FAT32 file system and SD card library for block devices with
512-byte blocks. The parsing and bookkeeping logic is written in Verus and
proved against its contracts; the pieces that talk to hardware live in a
thin ordinary Rust layer.

## Layout

- `src/` — the verified library.
  - `blockdevice.rs`: blocks, block indices and the `BlockDevice` trait,
    whose contents are modelled as a sequence of blocks, and a one-block
    cache in front of a device.
  - `bytes.rs`: little- and big-endian byte encodings.
  - `fat/`: the on-disk structures (boot parameter block, info sector,
    directory entries, the FAT's dirty flag) and the volume logic: reading
    and writing FAT entries, allocating and freeing cluster chains, and
    searching, listing, writing and deleting directory entries. The walks
    over a directory are specified once (`DirWalk`) and shared by the
    directory operations and by the laws in `fat/dir_laws.rs`.
  - `filesystem/`: attributes, clusters, directory entries, 8.3 short file
    names, long file name assembly, timestamps, file positions and handles.
  - `sdcard/`: the SD card command and response formats, the CSD and CID
    registers, CRC7/CRC16, and a card simulator.
  - `sdmmc.rs`, `sdmmc_proto.rs`: the SD/MMC protocol over a byte transport.
  - `text.rs`: decimal and hexadecimal digits and padding, for the
    `Debug` and `Display` forms that the types offer as `String` methods.
- `app/` — the SPI transport and the block device it drives, in ordinary
  Rust on `embedded-hal`.
- `tests/` — tests of the library on concrete values.

The volume manager that opens volumes, directories and files by handle
(and the `Volume` and `File` handle types that forward to it) is not
part of this crate: its sources were not available. The library offers
the layer beneath it: parsing a volume, walking, listing, searching and
changing directories, and the FAT operations.

Three tests of the original's older file-name module
(`filename_get_extension`, `filename_get_base_name`, `filename_bad`)
are not carried over: they expect the older behaviour (an extension padded
with spaces, an empty name refused), which the newer module, its tests and
this crate contradict (the extension is given without padding, and an
empty name is the current directory).
