//! The Card Specific Data register: the fields whose codes this crate
//! names.

use crate::bytes::{be_value, u128_from_be_bytes};
use crate::sdcard::{crc7, crc7_register};
use crate::sdmmc_proto::{lemma_capacity_fits, v1_capacity};
use vstd::prelude::*;

verus! {

/// A CSD whose structure field names no known version.
#[derive(Debug, PartialEq, Eq, Copy, Clone, Structural)]
pub struct InvalidCsdStructureFieldError;

/// Why a CSD was refused.
#[derive(Debug, PartialEq, Eq, Copy, Clone, Structural)]
pub enum CsdCreationError {
    /// Invalid CSD structure field.
    InvalidCsdStructureField,
    /// Invalid CRC7 checksum.
    Checksum,
}

impl From<InvalidCsdStructureFieldError> for CsdCreationError {
    fn from(_value: InvalidCsdStructureFieldError) -> (r: CsdCreationError) {
        CsdCreationError::InvalidCsdStructureField
    }
}

impl vstd::std_specs::convert::FromSpecImpl<InvalidCsdStructureFieldError> for CsdCreationError {
    open spec fn obeys_from_spec() -> bool {
        true
    }

    open spec fn from_spec(v: InvalidCsdStructureFieldError) -> CsdCreationError {
        CsdCreationError::InvalidCsdStructureField
    }
}

/// The version of a CSD (its two top bits).
#[derive(Debug, PartialEq, Eq, Copy, Clone, Structural)]
pub enum CsdStructure {
    /// Version 1.0 (0).
    CsdV1,
    /// Version 2.0, high capacity (1).
    CsdV2,
    /// Version 3.0, ultra capacity (2).
    CsdV3,
}

/// The CSD version with the given 2-bit code, if one has it.
pub open spec fn csd_structure_of(code: u8) -> Result<CsdStructure, u8> {
    if code == 0 {
        Ok(CsdStructure::CsdV1)
    } else if code == 1 {
        Ok(CsdStructure::CsdV2)
    } else if code == 2 {
        Ok(CsdStructure::CsdV3)
    } else {
        Err(code)
    }
}

impl CsdStructure {
    /// The CSD version with the given 2-bit code, or the code back.
    pub fn new_with_raw_value(code: u8) -> (r: Result<CsdStructure, u8>)
        ensures
            r == csd_structure_of(code),
    {
        match code {
            0 => Ok(CsdStructure::CsdV1),
            1 => Ok(CsdStructure::CsdV2),
            2 => Ok(CsdStructure::CsdV3),
            _ => Err(code),
        }
    }

    /// The 2-bit code of this version.
    pub fn raw_value(&self) -> (r: u8)
        ensures
            csd_structure_of(r) == Ok::<CsdStructure, u8>(*self),
    {
        match self {
            CsdStructure::CsdV1 => 0,
            CsdStructure::CsdV2 => 1,
            CsdStructure::CsdV3 => 2,
        }
    }
}

/// Maximum read or write block length of a version 1 CSD.
#[derive(Debug, PartialEq, Eq, Copy, Clone, Structural)]
pub enum BlockLengthSelectV1 {
    /// 512 bytes (9).
    _512,
    /// 1024 bytes (10).
    _1024,
    /// 2048 bytes (11).
    _2048,
}

/// The version 1 block length with the given 4-bit code, or the code back.
pub open spec fn block_length_v1_of(code: u8) -> Result<BlockLengthSelectV1, u8> {
    if code == 9 {
        Ok(BlockLengthSelectV1::_512)
    } else if code == 10 {
        Ok(BlockLengthSelectV1::_1024)
    } else if code == 11 {
        Ok(BlockLengthSelectV1::_2048)
    } else {
        Err(code)
    }
}

impl BlockLengthSelectV1 {
    /// The block length with the given 4-bit code, or the code back.
    pub fn new_with_raw_value(code: u8) -> (r: Result<BlockLengthSelectV1, u8>)
        ensures
            r == block_length_v1_of(code),
            code == 9 ==> r == Ok::<BlockLengthSelectV1, u8>(BlockLengthSelectV1::_512),
            code == 10 ==> r == Ok::<BlockLengthSelectV1, u8>(BlockLengthSelectV1::_1024),
            code == 11 ==> r == Ok::<BlockLengthSelectV1, u8>(BlockLengthSelectV1::_2048),
            !(9 <= code <= 11) ==> r == Err::<BlockLengthSelectV1, u8>(code),
    {
        match code {
            9 => Ok(BlockLengthSelectV1::_512),
            10 => Ok(BlockLengthSelectV1::_1024),
            11 => Ok(BlockLengthSelectV1::_2048),
            _ => Err(code),
        }
    }

    /// The 4-bit code: the base-2 logarithm of the length.
    pub fn raw_value(&self) -> (r: u8)
        ensures
            r == match *self {
                BlockLengthSelectV1::_512 => 9u8,
                BlockLengthSelectV1::_1024 => 10u8,
                BlockLengthSelectV1::_2048 => 11u8,
            },
    {
        match self {
            BlockLengthSelectV1::_512 => 9,
            BlockLengthSelectV1::_1024 => 10,
            BlockLengthSelectV1::_2048 => 11,
        }
    }
}

/// Maximum read or write block length of a version 2 or 3 CSD: always
/// 512 bytes.
#[derive(Debug, PartialEq, Eq, Copy, Clone, Structural)]
pub enum BlockLengthSelectV2AndV3 {
    /// 512 bytes (9).
    _512,
}

/// The version 2 and 3 block length with the given 4-bit code, or the code
/// back.
pub open spec fn block_length_v23_of(code: u8) -> Result<BlockLengthSelectV2AndV3, u8> {
    if code == 9 {
        Ok(BlockLengthSelectV2AndV3::_512)
    } else {
        Err(code)
    }
}

impl BlockLengthSelectV2AndV3 {
    /// The block length with the given 4-bit code, or the code back.
    pub fn new_with_raw_value(code: u8) -> (r: Result<BlockLengthSelectV2AndV3, u8>)
        ensures
            r == block_length_v23_of(code),
            code == 9 ==> r == Ok::<BlockLengthSelectV2AndV3, u8>(BlockLengthSelectV2AndV3::_512),
            code != 9 ==> r == Err::<BlockLengthSelectV2AndV3, u8>(code),
    {
        if code == 9 {
            Ok(BlockLengthSelectV2AndV3::_512)
        } else {
            Err(code)
        }
    }
}

/// The device size multiplier of a version 1 CSD.
#[derive(Debug, PartialEq, Eq, Copy, Clone, Structural)]
pub enum SizeMultiplierSelect {
    /// x4 (0).
    _4,
    /// x8 (1).
    _8,
    /// x16 (2).
    _16,
    /// x32 (3).
    _32,
    /// x64 (4).
    _64,
    /// x128 (5).
    _128,
    /// x256 (6).
    _256,
    /// x512 (7).
    _512,
}

/// The 3-bit code of a size multiplier.
pub open spec fn multiplier_code(m: SizeMultiplierSelect) -> nat {
    match m {
        SizeMultiplierSelect::_4 => 0,
        SizeMultiplierSelect::_8 => 1,
        SizeMultiplierSelect::_16 => 2,
        SizeMultiplierSelect::_32 => 3,
        SizeMultiplierSelect::_64 => 4,
        SizeMultiplierSelect::_128 => 5,
        SizeMultiplierSelect::_256 => 6,
        SizeMultiplierSelect::_512 => 7,
    }
}

/// Two to the power `n`.
pub open spec fn pow2(n: nat) -> nat
    decreases n,
{
    if n == 0 {
        1
    } else {
        2 * pow2((n - 1) as nat)
    }
}

impl SizeMultiplierSelect {
    /// The size multiplier with the given 3-bit code (the high bits of the
    /// argument are ignored).
    pub fn new_with_raw_value(code: u8) -> (r: SizeMultiplierSelect)
        ensures
            multiplier_code(r) == code % 8,
    {
        match code % 8 {
            0 => SizeMultiplierSelect::_4,
            1 => SizeMultiplierSelect::_8,
            2 => SizeMultiplierSelect::_16,
            3 => SizeMultiplierSelect::_32,
            4 => SizeMultiplierSelect::_64,
            5 => SizeMultiplierSelect::_128,
            6 => SizeMultiplierSelect::_256,
            _ => SizeMultiplierSelect::_512,
        }
    }

    /// The 3-bit code of the multiplier.
    pub fn raw_value(&self) -> (r: u8)
        ensures
            r == multiplier_code(*self),
    {
        match self {
            SizeMultiplierSelect::_4 => 0,
            SizeMultiplierSelect::_8 => 1,
            SizeMultiplierSelect::_16 => 2,
            SizeMultiplierSelect::_32 => 3,
            SizeMultiplierSelect::_64 => 4,
            SizeMultiplierSelect::_128 => 5,
            SizeMultiplierSelect::_256 => 6,
            SizeMultiplierSelect::_512 => 7,
        }
    }

    /// The multiplier: two to the power of the code plus two.
    pub fn multiplier(&self) -> (r: usize)
        ensures
            r == pow2(multiplier_code(*self) + 2),
    {
        proof {
            reveal_with_fuel(pow2, 10);
        }
        match self {
            SizeMultiplierSelect::_4 => 4,
            SizeMultiplierSelect::_8 => 8,
            SizeMultiplierSelect::_16 => 16,
            SizeMultiplierSelect::_32 => 32,
            SizeMultiplierSelect::_64 => 64,
            SizeMultiplierSelect::_128 => 128,
            SizeMultiplierSelect::_256 => 256,
            SizeMultiplierSelect::_512 => 512,
        }
    }
}

/// CCC field according to SD card spec 5.3.2: the command classes that a
/// card supports, one bit each (Table 4-21). The constants are the bits of
/// the classes.
#[derive(Debug, Clone, Copy, PartialEq, Eq, Structural)]
pub struct CardCommandClasses {
    bits: u16,
}

impl CardCommandClasses {
    /// Basic command class.
    pub const BASIC: u16 = 0b000000000001;
    /// COMM and Queue.
    pub const COMM_AND_QUEUE: u16 = 0b000000000010;
    /// Block Read.
    pub const BLOCK_READ: u16 = 0b000000000100;
    /// Reserved block.
    pub const RESERVED_3: u16 = 0b000000001000;
    /// Block Write.
    pub const BLOCK_WRITE: u16 = 0b000000010000;
    /// Erase.
    pub const ERASE: u16 = 0b000000100000;
    /// Write protection.
    pub const WRITE_PROTECTION: u16 = 0b000001000000;
    /// Lock card.
    pub const LOCK_CARD: u16 = 0b000010000000;
    /// Application specific.
    pub const APP_SPECIFIC: u16 = 0b000100000000;
    /// I/O mode.
    pub const IO_MODE: u16 = 0b001000000000;
    /// Switch
    pub const SWITCH: u16 = 0b010000000000;
    /// Extension.
    pub const EXTENSION: u16 = 0b100000000000;

    /// The bits of the classes.
    pub closed spec fn spec_bits(&self) -> u16 {
        self.bits
    }

    /// The bits of the classes.
    pub fn bits(&self) -> (r: u16)
        ensures
            r == self.spec_bits(),
    {
        self.bits
    }

    /// The classes with the given bits, if every bit names a class.
    pub fn from_bits(bits: u16) -> (r: Option<CardCommandClasses>)
        ensures
            r is Some <==> bits < 0x1000,
            r matches Some(c) ==> c.spec_bits() == bits,
    {
        if bits < 0x1000 {
            Some(CardCommandClasses { bits })
        } else {
            None
        }
    }

    /// The classes of either.
    pub fn union(self, other: CardCommandClasses) -> (r: CardCommandClasses)
        ensures
            r.spec_bits() == self.spec_bits() | other.spec_bits(),
    {
        CardCommandClasses { bits: self.bits | other.bits }
    }

    /// Whether every class of `other` is one of these.
    pub fn contains(&self, other: CardCommandClasses) -> (r: bool)
        ensures
            r == (self.spec_bits() & other.spec_bits() == other.spec_bits()),
    {
        self.bits & other.bits == other.bits
    }
}

/// The bits of the register value `raw` from bit `lo` on that `mask`
/// selects.
pub open spec fn reg_bits(raw: u128, lo: u32, mask: u128) -> u128 {
    (raw >> lo) & mask
}

/// The sixteen bytes of a register value, most significant first.
pub open spec fn be_bytes(raw: u128) -> Seq<u8> {
    Seq::new(16, |i: int| ((raw >> ((8 * (15 - i)) as u32)) & 0xFF) as u8)
}

/// Whether the CRC field of a register value is the CRC7 of its first
/// fifteen bytes.
pub open spec fn crc_ok(raw: u128) -> bool {
    reg_bits(raw, 1, 0x7F) == crc7_register(be_bytes(raw).take(15)) & 0x7F
}

/// The capacity in 512-byte blocks of a version 1 card: the device size
/// plus one, times two to the power of the multiplier and block length codes
/// less seven (none if they sum to less).
pub open spec fn v1_blocks(device_size: int, multiplier: int, block_length: int) -> int {
    (device_size + 1) * pow2_vstd(
        if multiplier + block_length >= 7 {
            (multiplier + block_length - 7) as nat
        } else {
            0
        },
    )
}

/// Two to the power `n`, as vstd counts it.
pub open spec fn pow2_vstd(n: nat) -> nat {
    vstd::arithmetic::power2::pow2(n)
}

pub(crate) proof fn lemma_and_bound(x: u128, m: u128)
    by (bit_vector)
    ensures
        x & m <= m,
{
}

/// The bits of the register value `raw` from bit `lo` on that `mask`
/// selects.
pub(crate) fn bits(raw: u128, lo: u32, mask: u128) -> (r: u128)
    requires
        lo < 128,
    ensures
        r == reg_bits(raw, lo, mask),
        r <= mask,
{
    proof {
        lemma_and_bound(raw >> lo, mask);
    }
    (raw >> lo) & mask
}

/// Whether the CRC field of a register value matches its first fifteen
/// bytes.
pub(crate) fn crc_matches(raw: u128) -> (r: bool)
    ensures
        r == crc_ok(raw),
{
    let mut bytes = [0u8; 15];
    let mut i: usize = 0;
    while i < 15
        invariant
            i <= 15,
            bytes@.len() == 15,
            forall|j: int| 0 <= j < i ==> bytes@[j] == be_bytes(raw)[j],
        decreases 15 - i,
    {
        let shift: u32 = (8 * (15 - i)) as u32;
        bytes[i] = ((raw >> shift) & 0xFF) as u8;
        i = i + 1;
    }
    assert(bytes@ =~= be_bytes(raw).take(15));
    bits(raw, 1, 0x7F) as u8 == crc7(&bytes)
}

/// CSD V1 register structure: the register of standard capacity cards.
#[derive(Debug, Clone, Copy, PartialEq, Eq, Structural)]
pub struct CsdV1 {
    raw: u128,
}

impl CsdV1 {
    /// The raw value of the register.
    pub closed spec fn spec_raw(&self) -> u128 {
        self.raw
    }

    /// The register with the given raw value.
    pub fn new_with_raw_value(raw: u128) -> (r: CsdV1)
        ensures
            r.spec_raw() == raw,
    {
        CsdV1 { raw }
    }

    /// The raw value of the register.
    pub fn raw_value(&self) -> (r: u128)
        ensures
            r == self.spec_raw(),
    {
        self.raw
    }

    /// Create [Self] from a raw byte slice.
    pub fn from_be_bytes(bytes: &[u8; 16]) -> (r: CsdV1)
        ensures
            r.spec_raw() == be_value(bytes@),
    {
        CsdV1 { raw: u128_from_be_bytes(bytes) }
    }

    /// CSD_STRUCTURE field: the register's version.
    pub fn csd_structure(&self) -> (r: Result<CsdStructure, u8>)
        ensures
            r == csd_structure_of(reg_bits(self.spec_raw(), 126, 0x3) as u8),
    {
        CsdStructure::new_with_raw_value(bits(self.raw, 126, 0x3) as u8)
    }

    /// TAAC field: the asynchronous part of the read access time.
    pub fn data_read_access_time1(&self) -> (r: u8)
        ensures
            r == reg_bits(self.spec_raw(), 112, 0xFF),
    {
        bits(self.raw, 112, 0xFF) as u8
    }

    /// NSAC field: the clock dependent part of the read access time.
    pub fn data_read_access_time2(&self) -> (r: u8)
        ensures
            r == reg_bits(self.spec_raw(), 104, 0xFF),
    {
        bits(self.raw, 104, 0xFF) as u8
    }

    /// TRAN_SPEED field.
    pub fn max_data_transfer_rate(&self) -> (r: u8)
        ensures
            r == reg_bits(self.spec_raw(), 96, 0xFF),
    {
        bits(self.raw, 96, 0xFF) as u8
    }

    /// CCC field, as its twelve bits.
    pub fn card_command_classes_raw(&self) -> (r: u16)
        ensures
            r == reg_bits(self.spec_raw(), 84, 0xFFF),
    {
        bits(self.raw, 84, 0xFFF) as u16
    }

    /// READ_BL_LEN field.
    pub fn read_block_length(&self) -> (r: Result<BlockLengthSelectV1, u8>)
        ensures
            r == block_length_v1_of(reg_bits(self.spec_raw(), 80, 0xF) as u8),
    {
        BlockLengthSelectV1::new_with_raw_value(bits(self.raw, 80, 0xF) as u8)
    }

    /// READ_BL_PARTIAL field.
    pub fn partial_blocks_for_read_allowed(&self) -> (r: bool)
        ensures
            r == (reg_bits(self.spec_raw(), 79, 0x1) == 1),
    {
        bits(self.raw, 79, 0x1) == 1
    }

    /// WRITE_BLK_MISALIGN field.
    pub fn write_block_misalignment(&self) -> (r: bool)
        ensures
            r == (reg_bits(self.spec_raw(), 78, 0x1) == 1),
    {
        bits(self.raw, 78, 0x1) == 1
    }

    /// READ_BLK_MISALIGN field.
    pub fn read_block_misalignment(&self) -> (r: bool)
        ensures
            r == (reg_bits(self.spec_raw(), 77, 0x1) == 1),
    {
        bits(self.raw, 77, 0x1) == 1
    }

    /// DSR_IMP field.
    pub fn dsr_implemented(&self) -> (r: bool)
        ensures
            r == (reg_bits(self.spec_raw(), 76, 0x1) == 1),
    {
        bits(self.raw, 76, 0x1) == 1
    }

    /// C_SIZE field.
    pub fn device_size(&self) -> (r: u16)
        ensures
            r == reg_bits(self.spec_raw(), 62, 0xFFF),
    {
        bits(self.raw, 62, 0xFFF) as u16
    }

    /// VDD_R_CURR_MIN field.
    pub fn max_read_current_vdd_min(&self) -> (r: u8)
        ensures
            r == reg_bits(self.spec_raw(), 59, 0x7),
    {
        bits(self.raw, 59, 0x7) as u8
    }

    /// VDD_R_CURR_MAX field.
    pub fn max_read_current_vdd_max(&self) -> (r: u8)
        ensures
            r == reg_bits(self.spec_raw(), 56, 0x7),
    {
        bits(self.raw, 56, 0x7) as u8
    }

    /// VDD_W_CURR_MIN field.
    pub fn max_write_current_vdd_min(&self) -> (r: u8)
        ensures
            r == reg_bits(self.spec_raw(), 53, 0x7),
    {
        bits(self.raw, 53, 0x7) as u8
    }

    /// VDD_W_CURR_MAX field.
    pub fn max_write_current_vdd_max(&self) -> (r: u8)
        ensures
            r == reg_bits(self.spec_raw(), 50, 0x7),
    {
        bits(self.raw, 50, 0x7) as u8
    }

    /// C_SIZE_MULT field.
    pub fn device_size_multiplier(&self) -> (r: SizeMultiplierSelect)
        ensures
            multiplier_code(r) == reg_bits(self.spec_raw(), 47, 0x7),
    {
        SizeMultiplierSelect::new_with_raw_value(bits(self.raw, 47, 0x7) as u8)
    }

    /// ERASE_BLK_EN field.
    pub fn erase_single_block_enabled(&self) -> (r: bool)
        ensures
            r == (reg_bits(self.spec_raw(), 46, 0x1) == 1),
    {
        bits(self.raw, 46, 0x1) == 1
    }

    /// SECTOR_SIZE field.
    pub fn erase_sector_size(&self) -> (r: u8)
        ensures
            r == reg_bits(self.spec_raw(), 39, 0x7F),
    {
        bits(self.raw, 39, 0x7F) as u8
    }

    /// WP_GRP_SIZE field.
    pub fn write_protect_group_size(&self) -> (r: u8)
        ensures
            r == reg_bits(self.spec_raw(), 32, 0x7F),
    {
        bits(self.raw, 32, 0x7F) as u8
    }

    /// WP_GRP_ENABLE field.
    pub fn write_protect_group_enable(&self) -> (r: bool)
        ensures
            r == (reg_bits(self.spec_raw(), 31, 0x1) == 1),
    {
        bits(self.raw, 31, 0x1) == 1
    }

    /// R2W_FACTOR field.
    pub fn write_speed_factor(&self) -> (r: u8)
        ensures
            r == reg_bits(self.spec_raw(), 26, 0x7),
    {
        bits(self.raw, 26, 0x7) as u8
    }

    /// WRITE_BL_LEN field.
    pub fn write_block_length(&self) -> (r: Result<BlockLengthSelectV1, u8>)
        ensures
            r == block_length_v1_of(reg_bits(self.spec_raw(), 22, 0xF) as u8),
    {
        BlockLengthSelectV1::new_with_raw_value(bits(self.raw, 22, 0xF) as u8)
    }

    /// WRITE_BL_PARTIAL field.
    pub fn partial_blocks_for_write_allowed(&self) -> (r: bool)
        ensures
            r == (reg_bits(self.spec_raw(), 21, 0x1) == 1),
    {
        bits(self.raw, 21, 0x1) == 1
    }

    /// FILE_FORMAT_GRP field.
    pub fn file_format_group_set(&self) -> (r: bool)
        ensures
            r == (reg_bits(self.spec_raw(), 15, 0x1) == 1),
    {
        bits(self.raw, 15, 0x1) == 1
    }

    /// COPY field.
    pub fn copy_flag_set(&self) -> (r: bool)
        ensures
            r == (reg_bits(self.spec_raw(), 14, 0x1) == 1),
    {
        bits(self.raw, 14, 0x1) == 1
    }

    /// PERM_WRITE_PROTECT field.
    pub fn permanent_write_protection(&self) -> (r: bool)
        ensures
            r == (reg_bits(self.spec_raw(), 13, 0x1) == 1),
    {
        bits(self.raw, 13, 0x1) == 1
    }

    /// TMP_WRITE_PROTECT field.
    pub fn temporary_write_protection(&self) -> (r: bool)
        ensures
            r == (reg_bits(self.spec_raw(), 12, 0x1) == 1),
    {
        bits(self.raw, 12, 0x1) == 1
    }

    /// FILE_FORMAT field.
    pub fn file_format(&self) -> (r: u8)
        ensures
            r == reg_bits(self.spec_raw(), 10, 0x3),
    {
        bits(self.raw, 10, 0x3) as u8
    }

    /// WP_UPC field.
    pub fn write_protection_until_power_cycle(&self) -> (r: bool)
        ensures
            r == (reg_bits(self.spec_raw(), 9, 0x1) == 1),
    {
        bits(self.raw, 9, 0x1) == 1
    }

    /// CRC field: the CRC7 checksum of the first fifteen bytes.
    pub fn crc(&self) -> (r: u8)
        ensures
            r == reg_bits(self.spec_raw(), 1, 0x7F),
    {
        bits(self.raw, 1, 0x7F) as u8
    }

    /// Verify CRC7 checksum.
    pub fn verify_crc7(&self) -> (r: bool)
        ensures
            r == crc_ok(self.spec_raw()),
    {
        crc_matches(self.raw)
    }
}

/// CSD V2 register structure: the register of high and extended capacity cards.
#[derive(Debug, Clone, Copy, PartialEq, Eq, Structural)]
pub struct CsdV2 {
    raw: u128,
}

impl CsdV2 {
    /// The raw value of the register.
    pub closed spec fn spec_raw(&self) -> u128 {
        self.raw
    }

    /// The register with the given raw value.
    pub fn new_with_raw_value(raw: u128) -> (r: CsdV2)
        ensures
            r.spec_raw() == raw,
    {
        CsdV2 { raw }
    }

    /// The raw value of the register.
    pub fn raw_value(&self) -> (r: u128)
        ensures
            r == self.spec_raw(),
    {
        self.raw
    }

    /// Create [Self] from a raw byte slice.
    pub fn from_be_bytes(bytes: &[u8; 16]) -> (r: CsdV2)
        ensures
            r.spec_raw() == be_value(bytes@),
    {
        CsdV2 { raw: u128_from_be_bytes(bytes) }
    }

    /// CSD_STRUCTURE field: the register's version.
    pub fn csd_structure(&self) -> (r: Result<CsdStructure, u8>)
        ensures
            r == csd_structure_of(reg_bits(self.spec_raw(), 126, 0x3) as u8),
    {
        CsdStructure::new_with_raw_value(bits(self.raw, 126, 0x3) as u8)
    }

    /// TAAC field: the asynchronous part of the read access time.
    pub fn data_read_access_time1(&self) -> (r: u8)
        ensures
            r == reg_bits(self.spec_raw(), 112, 0xFF),
    {
        bits(self.raw, 112, 0xFF) as u8
    }

    /// NSAC field: the clock dependent part of the read access time.
    pub fn data_read_access_time2(&self) -> (r: u8)
        ensures
            r == reg_bits(self.spec_raw(), 104, 0xFF),
    {
        bits(self.raw, 104, 0xFF) as u8
    }

    /// TRAN_SPEED field.
    pub fn max_data_transfer_rate(&self) -> (r: u8)
        ensures
            r == reg_bits(self.spec_raw(), 96, 0xFF),
    {
        bits(self.raw, 96, 0xFF) as u8
    }

    /// CCC field, as its twelve bits.
    pub fn card_command_classes_raw(&self) -> (r: u16)
        ensures
            r == reg_bits(self.spec_raw(), 84, 0xFFF),
    {
        bits(self.raw, 84, 0xFFF) as u16
    }

    /// READ_BL_LEN field.
    pub fn read_block_length(&self) -> (r: Result<BlockLengthSelectV2AndV3, u8>)
        ensures
            r == block_length_v23_of(reg_bits(self.spec_raw(), 80, 0xF) as u8),
    {
        BlockLengthSelectV2AndV3::new_with_raw_value(bits(self.raw, 80, 0xF) as u8)
    }

    /// READ_BL_PARTIAL field.
    pub fn partial_blocks_for_read_allowed(&self) -> (r: bool)
        ensures
            r == (reg_bits(self.spec_raw(), 79, 0x1) == 1),
    {
        bits(self.raw, 79, 0x1) == 1
    }

    /// WRITE_BLK_MISALIGN field.
    pub fn write_block_misalignment(&self) -> (r: bool)
        ensures
            r == (reg_bits(self.spec_raw(), 78, 0x1) == 1),
    {
        bits(self.raw, 78, 0x1) == 1
    }

    /// READ_BLK_MISALIGN field.
    pub fn read_block_misalignment(&self) -> (r: bool)
        ensures
            r == (reg_bits(self.spec_raw(), 77, 0x1) == 1),
    {
        bits(self.raw, 77, 0x1) == 1
    }

    /// DSR_IMP field.
    pub fn dsr_implemented(&self) -> (r: bool)
        ensures
            r == (reg_bits(self.spec_raw(), 76, 0x1) == 1),
    {
        bits(self.raw, 76, 0x1) == 1
    }

    /// C_SIZE field.
    pub fn device_size(&self) -> (r: u32)
        ensures
            r == reg_bits(self.spec_raw(), 48, 0x3FFFFF),
    {
        bits(self.raw, 48, 0x3FFFFF) as u32
    }

    /// ERASE_BLK_EN field.
    pub fn erase_single_block_enabled(&self) -> (r: bool)
        ensures
            r == (reg_bits(self.spec_raw(), 46, 0x1) == 1),
    {
        bits(self.raw, 46, 0x1) == 1
    }

    /// SECTOR_SIZE field.
    pub fn erase_sector_size(&self) -> (r: u8)
        ensures
            r == reg_bits(self.spec_raw(), 39, 0x7F),
    {
        bits(self.raw, 39, 0x7F) as u8
    }

    /// WP_GRP_SIZE field.
    pub fn write_protect_group_size(&self) -> (r: u8)
        ensures
            r == reg_bits(self.spec_raw(), 32, 0x7F),
    {
        bits(self.raw, 32, 0x7F) as u8
    }

    /// WP_GRP_ENABLE field.
    pub fn write_protect_group_enable(&self) -> (r: bool)
        ensures
            r == (reg_bits(self.spec_raw(), 31, 0x1) == 1),
    {
        bits(self.raw, 31, 0x1) == 1
    }

    /// R2W_FACTOR field.
    pub fn write_speed_factor(&self) -> (r: u8)
        ensures
            r == reg_bits(self.spec_raw(), 26, 0x7),
    {
        bits(self.raw, 26, 0x7) as u8
    }

    /// WRITE_BL_LEN field.
    pub fn write_block_length(&self) -> (r: Result<BlockLengthSelectV2AndV3, u8>)
        ensures
            r == block_length_v23_of(reg_bits(self.spec_raw(), 22, 0xF) as u8),
    {
        BlockLengthSelectV2AndV3::new_with_raw_value(bits(self.raw, 22, 0xF) as u8)
    }

    /// WRITE_BL_PARTIAL field.
    pub fn partial_blocks_for_write_allowed(&self) -> (r: bool)
        ensures
            r == (reg_bits(self.spec_raw(), 21, 0x1) == 1),
    {
        bits(self.raw, 21, 0x1) == 1
    }

    /// FILE_FORMAT_GRP field.
    pub fn file_format_group_set(&self) -> (r: bool)
        ensures
            r == (reg_bits(self.spec_raw(), 15, 0x1) == 1),
    {
        bits(self.raw, 15, 0x1) == 1
    }

    /// COPY field.
    pub fn copy_flag_set(&self) -> (r: bool)
        ensures
            r == (reg_bits(self.spec_raw(), 14, 0x1) == 1),
    {
        bits(self.raw, 14, 0x1) == 1
    }

    /// PERM_WRITE_PROTECT field.
    pub fn permanent_write_protection(&self) -> (r: bool)
        ensures
            r == (reg_bits(self.spec_raw(), 13, 0x1) == 1),
    {
        bits(self.raw, 13, 0x1) == 1
    }

    /// TMP_WRITE_PROTECT field.
    pub fn temporary_write_protection(&self) -> (r: bool)
        ensures
            r == (reg_bits(self.spec_raw(), 12, 0x1) == 1),
    {
        bits(self.raw, 12, 0x1) == 1
    }

    /// FILE_FORMAT field.
    pub fn file_format(&self) -> (r: u8)
        ensures
            r == reg_bits(self.spec_raw(), 10, 0x3),
    {
        bits(self.raw, 10, 0x3) as u8
    }

    /// WP_UPC field.
    pub fn write_protection_until_power_cycle(&self) -> (r: bool)
        ensures
            r == (reg_bits(self.spec_raw(), 9, 0x1) == 1),
    {
        bits(self.raw, 9, 0x1) == 1
    }

    /// CRC field: the CRC7 checksum of the first fifteen bytes.
    pub fn crc(&self) -> (r: u8)
        ensures
            r == reg_bits(self.spec_raw(), 1, 0x7F),
    {
        bits(self.raw, 1, 0x7F) as u8
    }

    /// Verify CRC7 checksum.
    pub fn verify_crc7(&self) -> (r: bool)
        ensures
            r == crc_ok(self.spec_raw()),
    {
        crc_matches(self.raw)
    }
}

/// CSD V3 register structure: the register of ultra capacity cards.
#[derive(Debug, Clone, Copy, PartialEq, Eq, Structural)]
pub struct CsdV3 {
    raw: u128,
}

impl CsdV3 {
    /// The raw value of the register.
    pub closed spec fn spec_raw(&self) -> u128 {
        self.raw
    }

    /// The register with the given raw value.
    pub fn new_with_raw_value(raw: u128) -> (r: CsdV3)
        ensures
            r.spec_raw() == raw,
    {
        CsdV3 { raw }
    }

    /// The raw value of the register.
    pub fn raw_value(&self) -> (r: u128)
        ensures
            r == self.spec_raw(),
    {
        self.raw
    }

    /// Create [Self] from a raw byte slice.
    pub fn from_be_bytes(bytes: &[u8; 16]) -> (r: CsdV3)
        ensures
            r.spec_raw() == be_value(bytes@),
    {
        CsdV3 { raw: u128_from_be_bytes(bytes) }
    }

    /// CSD_STRUCTURE field: the register's version.
    pub fn csd_structure(&self) -> (r: Result<CsdStructure, u8>)
        ensures
            r == csd_structure_of(reg_bits(self.spec_raw(), 126, 0x3) as u8),
    {
        CsdStructure::new_with_raw_value(bits(self.raw, 126, 0x3) as u8)
    }

    /// TAAC field: the asynchronous part of the read access time.
    pub fn data_read_access_time1(&self) -> (r: u8)
        ensures
            r == reg_bits(self.spec_raw(), 112, 0xFF),
    {
        bits(self.raw, 112, 0xFF) as u8
    }

    /// NSAC field: the clock dependent part of the read access time.
    pub fn data_read_access_time2(&self) -> (r: u8)
        ensures
            r == reg_bits(self.spec_raw(), 104, 0xFF),
    {
        bits(self.raw, 104, 0xFF) as u8
    }

    /// TRAN_SPEED field.
    pub fn max_data_transfer_rate(&self) -> (r: u8)
        ensures
            r == reg_bits(self.spec_raw(), 96, 0xFF),
    {
        bits(self.raw, 96, 0xFF) as u8
    }

    /// CCC field, as its twelve bits.
    pub fn card_command_classes_raw(&self) -> (r: u16)
        ensures
            r == reg_bits(self.spec_raw(), 84, 0xFFF),
    {
        bits(self.raw, 84, 0xFFF) as u16
    }

    /// READ_BL_LEN field.
    pub fn read_block_length(&self) -> (r: Result<BlockLengthSelectV2AndV3, u8>)
        ensures
            r == block_length_v23_of(reg_bits(self.spec_raw(), 80, 0xF) as u8),
    {
        BlockLengthSelectV2AndV3::new_with_raw_value(bits(self.raw, 80, 0xF) as u8)
    }

    /// READ_BL_PARTIAL field.
    pub fn partial_blocks_for_read_allowed(&self) -> (r: bool)
        ensures
            r == (reg_bits(self.spec_raw(), 79, 0x1) == 1),
    {
        bits(self.raw, 79, 0x1) == 1
    }

    /// WRITE_BLK_MISALIGN field.
    pub fn write_block_misalignment(&self) -> (r: bool)
        ensures
            r == (reg_bits(self.spec_raw(), 78, 0x1) == 1),
    {
        bits(self.raw, 78, 0x1) == 1
    }

    /// READ_BLK_MISALIGN field.
    pub fn read_block_misalignment(&self) -> (r: bool)
        ensures
            r == (reg_bits(self.spec_raw(), 77, 0x1) == 1),
    {
        bits(self.raw, 77, 0x1) == 1
    }

    /// DSR_IMP field.
    pub fn dsr_implemented(&self) -> (r: bool)
        ensures
            r == (reg_bits(self.spec_raw(), 76, 0x1) == 1),
    {
        bits(self.raw, 76, 0x1) == 1
    }

    /// C_SIZE field.
    pub fn device_size(&self) -> (r: u32)
        ensures
            r == reg_bits(self.spec_raw(), 48, 0xFFFFFFF),
    {
        bits(self.raw, 48, 0xFFFFFFF) as u32
    }

    /// ERASE_BLK_EN field.
    pub fn erase_single_block_enabled(&self) -> (r: bool)
        ensures
            r == (reg_bits(self.spec_raw(), 46, 0x1) == 1),
    {
        bits(self.raw, 46, 0x1) == 1
    }

    /// SECTOR_SIZE field.
    pub fn erase_sector_size(&self) -> (r: u8)
        ensures
            r == reg_bits(self.spec_raw(), 39, 0x7F),
    {
        bits(self.raw, 39, 0x7F) as u8
    }

    /// WP_GRP_SIZE field.
    pub fn write_protect_group_size(&self) -> (r: u8)
        ensures
            r == reg_bits(self.spec_raw(), 32, 0x7F),
    {
        bits(self.raw, 32, 0x7F) as u8
    }

    /// WP_GRP_ENABLE field.
    pub fn write_protect_group_enable(&self) -> (r: bool)
        ensures
            r == (reg_bits(self.spec_raw(), 31, 0x1) == 1),
    {
        bits(self.raw, 31, 0x1) == 1
    }

    /// R2W_FACTOR field.
    pub fn write_speed_factor(&self) -> (r: u8)
        ensures
            r == reg_bits(self.spec_raw(), 26, 0x7),
    {
        bits(self.raw, 26, 0x7) as u8
    }

    /// WRITE_BL_LEN field.
    pub fn write_block_length(&self) -> (r: Result<BlockLengthSelectV2AndV3, u8>)
        ensures
            r == block_length_v23_of(reg_bits(self.spec_raw(), 22, 0xF) as u8),
    {
        BlockLengthSelectV2AndV3::new_with_raw_value(bits(self.raw, 22, 0xF) as u8)
    }

    /// WRITE_BL_PARTIAL field.
    pub fn partial_blocks_for_write_allowed(&self) -> (r: bool)
        ensures
            r == (reg_bits(self.spec_raw(), 21, 0x1) == 1),
    {
        bits(self.raw, 21, 0x1) == 1
    }

    /// FILE_FORMAT_GRP field.
    pub fn file_format_group_set(&self) -> (r: bool)
        ensures
            r == (reg_bits(self.spec_raw(), 15, 0x1) == 1),
    {
        bits(self.raw, 15, 0x1) == 1
    }

    /// COPY field.
    pub fn copy_flag_set(&self) -> (r: bool)
        ensures
            r == (reg_bits(self.spec_raw(), 14, 0x1) == 1),
    {
        bits(self.raw, 14, 0x1) == 1
    }

    /// PERM_WRITE_PROTECT field.
    pub fn permanent_write_protection(&self) -> (r: bool)
        ensures
            r == (reg_bits(self.spec_raw(), 13, 0x1) == 1),
    {
        bits(self.raw, 13, 0x1) == 1
    }

    /// TMP_WRITE_PROTECT field.
    pub fn temporary_write_protection(&self) -> (r: bool)
        ensures
            r == (reg_bits(self.spec_raw(), 12, 0x1) == 1),
    {
        bits(self.raw, 12, 0x1) == 1
    }

    /// FILE_FORMAT field.
    pub fn file_format(&self) -> (r: u8)
        ensures
            r == reg_bits(self.spec_raw(), 10, 0x3),
    {
        bits(self.raw, 10, 0x3) as u8
    }

    /// WP_UPC field.
    pub fn write_protection_until_power_cycle(&self) -> (r: bool)
        ensures
            r == (reg_bits(self.spec_raw(), 9, 0x1) == 1),
    {
        bits(self.raw, 9, 0x1) == 1
    }

    /// CRC field: the CRC7 checksum of the first fifteen bytes.
    pub fn crc(&self) -> (r: u8)
        ensures
            r == reg_bits(self.spec_raw(), 1, 0x7F),
    {
        bits(self.raw, 1, 0x7F) as u8
    }

    /// Verify CRC7 checksum.
    pub fn verify_crc7(&self) -> (r: bool)
        ensures
            r == crc_ok(self.spec_raw()),
    {
        crc_matches(self.raw)
    }
}

impl CsdV1 {
    /// CCC field as type supporting bitflags.
    pub fn card_command_classes(&self) -> (r: CardCommandClasses)
        ensures
            r.spec_bits() == reg_bits(self.spec_raw(), 84, 0xFFF),
    {
        proof {
            lemma_and_bound(self.raw >> 84u32, 0xFFF);
        }
        match CardCommandClasses::from_bits(self.card_command_classes_raw()) {
            Some(c) => c,
            None => CardCommandClasses { bits: 0 },
        }
    }

    /// Returns the card capacity in bytes
    pub fn card_capacity_bytes(&self) -> (r: u64)
        ensures
            r == v1_capacity(
                reg_bits(self.spec_raw(), 62, 0xFFF) as int,
                reg_bits(self.spec_raw(), 47, 0x7) as int,
                reg_bits(self.spec_raw(), 80, 0xF) as int,
            ),
    {
        proof {
            lemma_and_bound(self.raw >> 62u32, 0xFFF);
            lemma_and_bound(self.raw >> 47u32, 0x7);
            lemma_and_bound(self.raw >> 80u32, 0xF);
        }
        let block_len: u64 = match self.read_block_length() {
            Ok(v) => v.raw_value() as u64,
            Err(code) => code as u64,
        };
        let multiplier = self.device_size_multiplier().raw_value() as u64 + block_len + 2;
        let size = self.device_size() as u64 + 1;
        proof {
            lemma_capacity_fits(size as int, multiplier as nat);
            vstd::bits::lemma_u64_shl_is_mul(size, multiplier);
        }
        size << multiplier
    }

    /// Returns the card capacity in 512-byte blocks
    pub fn card_capacity_blocks(&self) -> (r: u32)
        ensures
            r == v1_blocks(
                reg_bits(self.spec_raw(), 62, 0xFFF) as int,
                reg_bits(self.spec_raw(), 47, 0x7) as int,
                reg_bits(self.spec_raw(), 80, 0xF) as int,
            ),
    {
        proof {
            lemma_and_bound(self.raw >> 62u32, 0xFFF);
            lemma_and_bound(self.raw >> 47u32, 0x7);
            lemma_and_bound(self.raw >> 80u32, 0xF);
        }
        let block_len: u32 = match self.read_block_length() {
            Ok(v) => v.raw_value() as u32,
            Err(code) => code as u32,
        };
        let sum = (self.device_size_multiplier().raw_value() as u32).saturating_add(block_len);
        let multiplier = sum.saturating_sub(7);
        if multiplier >= 32 {
            0
        } else {
            let size = self.device_size() as u32 + 1;
            proof {
                lemma_capacity_fits(size as int, multiplier as nat);
                vstd::bits::lemma_u32_shl_is_mul(size, multiplier);
            }
            size << multiplier
        }
    }
}

impl CsdV2 {
    /// Returns the card capacity in bytes
    pub fn card_capacity_bytes(&self) -> (r: u64)
        ensures
            r == (reg_bits(self.spec_raw(), 48, 0x3FFFFF) + 1) * 512 * 1024,
    {
        (self.device_size() as u64 + 1) * 512 * 1024
    }

    /// Returns the card capacity in 512-byte blocks
    pub fn card_capacity_blocks(&self) -> (r: u32)
        requires
            (reg_bits(self.spec_raw(), 48, 0x3FFFFF) + 1) * 1024 <= u32::MAX,
        ensures
            r == (reg_bits(self.spec_raw(), 48, 0x3FFFFF) + 1) * 1024,
    {
        (self.device_size() + 1) * 1024
    }
}

impl CsdV3 {
    /// Returns the card capacity in bytes
    pub fn card_capacity_bytes(&self) -> (r: u64)
        ensures
            r == (reg_bits(self.spec_raw(), 48, 0xFFFFFFF) + 1) * 512 * 1024,
    {
        (self.device_size() as u64 + 1) * 512 * 1024
    }

    /// Returns the card capacity in 512-byte blocks
    pub fn card_capacity_blocks(&self) -> (r: u32)
        requires
            (reg_bits(self.spec_raw(), 48, 0xFFFFFFF) + 1) * 1024 <= u32::MAX,
        ensures
            r == (reg_bits(self.spec_raw(), 48, 0xFFFFFFF) + 1) * 1024,
    {
        (self.device_size() + 1) * 1024
    }
}

/// Card Specific Data
#[derive(Debug, Clone, Copy)]
pub enum Csd {
    /// A version 1 CSD
    V1(CsdV1),
    /// A version 2 CSD
    V2(CsdV2),
    /// A version 3 CSD
    V3(CsdV3),
}

/// Whether `c` is the register that the raw value `raw` holds: of the
/// version that its structure field names, with that value.
pub open spec fn is_csd_of(c: Csd, raw: u128) -> bool {
    &&& c.spec_raw() == raw
    &&& match c {
        Csd::V1(_) => reg_bits(raw, 126, 0x3) == 0,
        Csd::V2(_) => reg_bits(raw, 126, 0x3) == 1,
        Csd::V3(_) => reg_bits(raw, 126, 0x3) == 2,
    }
}

impl Csd {
    /// The raw value of the register.
    pub open spec fn spec_raw(&self) -> u128 {
        match *self {
            Csd::V1(c) => c.spec_raw(),
            Csd::V2(c) => c.spec_raw(),
            Csd::V3(c) => c.spec_raw(),
        }
    }

    /// Construct a [Csd] from a raw byte slice with 16 bytes.
    pub fn new(raw: &[u8; 16]) -> (r: Result<Csd, CsdCreationError>)
        ensures
            ({
                let value = be_value(raw@) as u128;
                &&& reg_bits(value, 126, 0x3) == 3 ==> r == Err::<Csd, CsdCreationError>(
                    CsdCreationError::InvalidCsdStructureField,
                )
                &&& reg_bits(value, 126, 0x3) < 3 && !crc_ok(value) ==> r == Err::<
                    Csd,
                    CsdCreationError,
                >(CsdCreationError::Checksum)
                &&& reg_bits(value, 126, 0x3) < 3 && crc_ok(value) ==> (r matches Ok(c)
                    && is_csd_of(c, value))
            }),
    {
        match Self::new_unchecked(raw) {
            Ok(unchecked) => {
                if !unchecked.verify_crc7() {
                    return Err(CsdCreationError::Checksum);
                }
                Ok(unchecked)
            },
            Err(e) => Err(CsdCreationError::from(e)),
        }
    }

    /// Construct a [Csd] without verifying the checksum.
    pub fn new_unchecked(raw: &[u8; 16]) -> (r: Result<Self, InvalidCsdStructureFieldError>)
        ensures
            r is Ok <==> reg_bits(be_value(raw@) as u128, 126, 0x3) < 3,
            r matches Ok(c) ==> is_csd_of(c, be_value(raw@) as u128),
    {
        let value = u128_from_be_bytes(raw);
        let csd_structure_raw = bits(value, 126, 0b11);
        if csd_structure_raw == 0 {
            Ok(Csd::V1(CsdV1::new_with_raw_value(value)))
        } else if csd_structure_raw == 1 {
            Ok(Csd::V2(CsdV2::new_with_raw_value(value)))
        } else if csd_structure_raw == 2 {
            Ok(Csd::V3(CsdV3::new_with_raw_value(value)))
        } else {
            Err(InvalidCsdStructureFieldError)
        }
    }

    /// Returns the card capacity in 512-byte blocks
    pub fn card_capacity_blocks(&self) -> (r: u32)
        requires
            *self is V2 ==> (reg_bits(self.spec_raw(), 48, 0x3FFFFF) + 1) * 1024 <= u32::MAX,
            *self is V3 ==> (reg_bits(self.spec_raw(), 48, 0xFFFFFFF) + 1) * 1024 <= u32::MAX,
        ensures
            r == match *self {
                Csd::V1(c) => v1_blocks(
                    reg_bits(c.spec_raw(), 62, 0xFFF) as int,
                    reg_bits(c.spec_raw(), 47, 0x7) as int,
                    reg_bits(c.spec_raw(), 80, 0xF) as int,
                ),
                Csd::V2(c) => (reg_bits(c.spec_raw(), 48, 0x3FFFFF) + 1) * 1024,
                Csd::V3(c) => (reg_bits(c.spec_raw(), 48, 0xFFFFFFF) + 1) * 1024,
            },
    {
        match self {
            Csd::V1(csd_v1) => csd_v1.card_capacity_blocks(),
            Csd::V2(csd_v2) => csd_v2.card_capacity_blocks(),
            Csd::V3(csd_v3) => csd_v3.card_capacity_blocks(),
        }
    }

    /// Returns the card capacity in bytes blocks
    pub fn card_capacity_bytes(&self) -> (r: u64)
        ensures
            r == match *self {
                Csd::V1(c) => v1_capacity(
                    reg_bits(c.spec_raw(), 62, 0xFFF) as int,
                    reg_bits(c.spec_raw(), 47, 0x7) as int,
                    reg_bits(c.spec_raw(), 80, 0xF) as int,
                ),
                Csd::V2(c) => (reg_bits(c.spec_raw(), 48, 0x3FFFFF) + 1) * 512 * 1024,
                Csd::V3(c) => (reg_bits(c.spec_raw(), 48, 0xFFFFFFF) + 1) * 512 * 1024,
            },
    {
        match self {
            Csd::V1(csd_v1) => csd_v1.card_capacity_bytes(),
            Csd::V2(csd_v2) => csd_v2.card_capacity_bytes(),
            Csd::V3(csd_v3) => csd_v3.card_capacity_bytes(),
        }
    }

    /// Can this card erase single blocks?
    pub fn erase_single_block_enabled(&self) -> (r: bool)
        ensures
            r == (reg_bits(self.spec_raw(), 46, 0x1) == 1),
    {
        match self {
            Csd::V1(csd_v1) => csd_v1.erase_single_block_enabled(),
            Csd::V2(csd_v2) => csd_v2.erase_single_block_enabled(),
            Csd::V3(csd_v3) => csd_v3.erase_single_block_enabled(),
        }
    }

    /// Verify CRC7 checksum.
    pub fn verify_crc7(&self) -> (r: bool)
        ensures
            r == crc_ok(self.spec_raw()),
    {
        match self {
            Csd::V1(csd_v1) => csd_v1.verify_crc7(),
            Csd::V2(csd_v2) => csd_v2.verify_crc7(),
            Csd::V3(csd_v3) => csd_v3.verify_crc7(),
        }
    }
}


} // verus!
