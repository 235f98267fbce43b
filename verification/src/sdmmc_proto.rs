//! The SD/MMC protocol constants, checksums and the Card Specific Data
//! register, as the SPI transport of this crate uses them.

use vstd::prelude::*;

verus! {

/// GO_IDLE_STATE - init card in spi mode if CS low.
pub const CMD0: u8 = 0x00;

/// SEND_IF_COND - verify SD Memory Card interface operating condition.
pub const CMD8: u8 = 0x08;

/// SEND_CSD - read the Card Specific Data (CSD register).
pub const CMD9: u8 = 0x09;

/// STOP_TRANSMISSION - end multiple block read sequence.
pub const CMD12: u8 = 0x0C;

/// SEND_STATUS - read the card status register.
pub const CMD13: u8 = 0x0D;

/// READ_SINGLE_BLOCK - read a single data block from the card.
pub const CMD17: u8 = 0x11;

/// READ_MULTIPLE_BLOCK - read a multiple data blocks from the card.
pub const CMD18: u8 = 0x12;

/// WRITE_BLOCK - write a single data block to the card.
pub const CMD24: u8 = 0x18;

/// WRITE_MULTIPLE_BLOCK - write blocks of data until a STOP_TRANSMISSION.
pub const CMD25: u8 = 0x19;

/// APP_CMD - escape for application specific command.
pub const CMD55: u8 = 0x37;

/// READ_OCR - read the OCR register of a card.
pub const CMD58: u8 = 0x3A;

/// CRC_ON_OFF - enable or disable CRC checking.
pub const CMD59: u8 = 0x3B;

/// SD_SEND_OP_COMD - Sends host capacity support information and activates
/// the card's initialization process.
pub const ACMD41: u8 = 0x29;

/// Card indicates last operation was a success.
pub const ERROR_OK: u8 = 0x00;

/// Status for card in the ready state.
pub const R1_READY_STATE: u8 = 0x00;

/// Status for card in the idle state.
pub const R1_IDLE_STATE: u8 = 0x01;

/// Status bit for illegal command.
pub const R1_ILLEGAL_COMMAND: u8 = 0x04;

/// Start data token for read or write single block.
pub const DATA_START_BLOCK: u8 = 0xFE;

/// Stop token for write multiple blocks.
pub const STOP_TRAN_TOKEN: u8 = 0xFD;

/// Start data token for write multiple blocks.
pub const WRITE_MULTIPLE_TOKEN: u8 = 0xFC;

/// Mask for data response tokens after a write block operation.
pub const DATA_RES_MASK: u8 = 0x1F;

/// Write data accepted token.
pub const DATA_RES_ACCEPTED: u8 = 0x05;

/// The last byte of a command frame: the 7-bit CRC of the five bytes before
/// it, shifted left, with the end bit set.
pub fn crc7(data: &[u8]) -> (r: u8)
    ensures
        r == ((crate::sdcard::crc7_register(data@) * 2) % 256) as u8 + 1,
{
    let crc = crate::sdcard::crc7(data);
    assert(crc == crate::sdcard::crc7_register(data@) & 0x7F);
    let ghost reg = crate::sdcard::crc7_register(data@);
    assert((reg & 0x7F) * 2 == (reg * 2) % 256) by (bit_vector);
    crc * 2 + 1
}

/// Perform the X25 CRC calculation, as used for data blocks.
pub fn crc16(data: &[u8]) -> (r: u16)
    ensures
        r == crate::sdcard::crc16_of(data@),
{
    crate::sdcard::crc16(data)
}

/// A version 1 Card Specific Data register (standard capacity cards).
#[derive(Default, Debug, Clone, Copy)]
pub struct CsdV1 {
    /// The 16 bytes of the register.
    pub data: [u8; 16],
}

/// A version 2 Card Specific Data register (high capacity cards).
#[derive(Default, Debug, Clone, Copy)]
pub struct CsdV2 {
    /// The 16 bytes of the register.
    pub data: [u8; 16],
}

/// A Card Specific Data register of either version.
#[derive(Debug, Clone, Copy)]
pub enum Csd {
    /// A version 1 register.
    V1(CsdV1),
    /// A version 2 register.
    V2(CsdV2),
}

/// The capacity in bytes of a version 1 card: (device size + 1) blocks of
/// 2^(multiplier + 2) times 2^(read block length) bytes.
pub open spec fn v1_capacity(device_size: int, multiplier: int, block_length: int) -> int {
    (device_size + 1) * vstd::arithmetic::power2::pow2((multiplier + block_length + 2) as nat)
}

impl CsdV1 {
    /// A register of zeros.
    pub fn new() -> (r: CsdV1)
        ensures
            r.data@ == Seq::new(16, |i: int| 0u8),
    {
        let r = CsdV1 { data: [0u8; 16] };
        assert(r.data@ =~= Seq::new(16, |i: int| 0u8));
        r
    }

    /// Structure version (bits 6-7 of byte 0).
    #[verifier::allow_in_spec]
    pub fn csd_ver(&self) -> u8
        returns
            self.data@[0] / 64,
    {
        ((self.data[0] / 64) as u8)
    }

    /// Data read access time 1 (byte 1).
    #[verifier::allow_in_spec]
    pub fn data_read_access_time1(&self) -> u8
        returns
            self.data@[1],
    {
        ((self.data[1]) as u8)
    }

    /// Data read access time 2, in clock cycles (byte 2).
    #[verifier::allow_in_spec]
    pub fn data_read_access_time2(&self) -> u8
        returns
            self.data@[2],
    {
        ((self.data[2]) as u8)
    }

    /// Maximum data transfer rate (byte 3).
    #[verifier::allow_in_spec]
    pub fn max_data_transfer_rate(&self) -> u8
        returns
            self.data@[3],
    {
        ((self.data[3]) as u8)
    }

    /// Card command classes (byte 4 and the top half of byte 5).
    #[verifier::allow_in_spec]
    pub fn card_command_classes(&self) -> u16
        returns
            ((self.data@[4]) * 16 + self.data@[5] / 16) as u16,
    {
        (((self.data[4]) as u16)) * 16 + ((self.data[5] / 16) as u16)
    }

    /// Maximum read block length, as a power of two (low half of byte 5).
    #[verifier::allow_in_spec]
    pub fn read_block_length(&self) -> u8
        returns
            self.data@[5] % 16,
    {
        ((self.data[5] % 16) as u8)
    }

    /// Partial blocks for read allowed (bit 7 of byte 6).
    #[verifier::allow_in_spec]
    pub fn read_partial_blocks(&self) -> bool
        returns
            ((self.data@[6] / 128) % 2 == 1),
    {
        (self.data[6] / 128) % 2 == 1
    }

    /// Write block misalignment (bit 6 of byte 6).
    #[verifier::allow_in_spec]
    pub fn write_block_misalignment(&self) -> bool
        returns
            ((self.data@[6] / 64) % 2 == 1),
    {
        (self.data[6] / 64) % 2 == 1
    }

    /// Read block misalignment (bit 5 of byte 6).
    #[verifier::allow_in_spec]
    pub fn read_block_misalignment(&self) -> bool
        returns
            ((self.data@[6] / 32) % 2 == 1),
    {
        (self.data[6] / 32) % 2 == 1
    }

    /// Driver stage register implemented (bit 4 of byte 6).
    #[verifier::allow_in_spec]
    pub fn dsr_implemented(&self) -> bool
        returns
            ((self.data@[6] / 16) % 2 == 1),
    {
        (self.data[6] / 16) % 2 == 1
    }

    /// Device size (bits 0-1 of byte 6, byte 7, bits 6-7 of byte 8).
    #[verifier::allow_in_spec]
    pub fn device_size(&self) -> u32
        returns
            (((self.data@[6] % 4) * 256 + self.data@[7]) * 4 + self.data@[8] / 64) as u32,
    {
        ((((self.data[6] % 4) as u32)) * 256 + ((self.data[7]) as u32)) * 4 + ((self.data[8] / 64) as u32)
    }

    /// Maximum read current at the maximum supply voltage (bits 0-2 of byte 8).
    #[verifier::allow_in_spec]
    pub fn max_read_current_vdd_max(&self) -> u8
        returns
            self.data@[8] % 8,
    {
        ((self.data[8] % 8) as u8)
    }

    /// Maximum read current at the minimum supply voltage (bits 3-5 of byte 8).
    #[verifier::allow_in_spec]
    pub fn max_read_current_vdd_min(&self) -> u8
        returns
            (self.data@[8] / 8) % 8,
    {
        (((self.data[8] / 8) % 8) as u8)
    }

    /// Maximum write current at the maximum supply voltage (bits 2-4 of byte 9).
    #[verifier::allow_in_spec]
    pub fn max_write_current_vdd_max(&self) -> u8
        returns
            (self.data@[9] / 4) % 8,
    {
        (((self.data[9] / 4) % 8) as u8)
    }

    /// Maximum write current at the minimum supply voltage (bits 5-7 of byte 9).
    #[verifier::allow_in_spec]
    pub fn max_write_current_vdd_min(&self) -> u8
        returns
            self.data@[9] / 32,
    {
        ((self.data[9] / 32) as u8)
    }

    /// Device size multiplier code (bits 0-1 of byte 9, bit 7 of byte 10).
    #[verifier::allow_in_spec]
    pub fn device_size_multiplier(&self) -> u8
        returns
            ((self.data@[9] % 4) * 2 + self.data@[10] / 128) as u8,
    {
        (((self.data[9] % 4) as u8)) * 2 + ((self.data[10] / 128) as u8)
    }

    /// Erasing single blocks enabled (bit 6 of byte 10).
    #[verifier::allow_in_spec]
    pub fn erase_single_block_enabled(&self) -> bool
        returns
            ((self.data@[10] / 64) % 2 == 1),
    {
        (self.data[10] / 64) % 2 == 1
    }

    /// Erase sector size (bits 0-5 of byte 10, bit 7 of byte 11).
    #[verifier::allow_in_spec]
    pub fn erase_sector_size(&self) -> u8
        returns
            ((self.data@[10] % 64) * 2 + self.data@[11] / 128) as u8,
    {
        (((self.data[10] % 64) as u8)) * 2 + ((self.data[11] / 128) as u8)
    }

    /// Write protect group size (bits 0-6 of byte 11).
    #[verifier::allow_in_spec]
    pub fn write_protect_group_size(&self) -> u8
        returns
            self.data@[11] % 128,
    {
        ((self.data[11] % 128) as u8)
    }

    /// Write protect group enable (bit 7 of byte 12).
    #[verifier::allow_in_spec]
    pub fn write_protect_group_enable(&self) -> bool
        returns
            ((self.data@[12] / 128) % 2 == 1),
    {
        (self.data[12] / 128) % 2 == 1
    }

    /// Write speed factor (bits 2-4 of byte 12).
    #[verifier::allow_in_spec]
    pub fn write_speed_factor(&self) -> u8
        returns
            (self.data@[12] / 4) % 8,
    {
        (((self.data[12] / 4) % 8) as u8)
    }

    /// Maximum write block length (bits 0-1 of byte 12, bits 6-7 of byte 13).
    #[verifier::allow_in_spec]
    pub fn max_write_data_length(&self) -> u8
        returns
            ((self.data@[12] % 4) * 4 + self.data@[13] / 64) as u8,
    {
        (((self.data[12] % 4) as u8)) * 4 + ((self.data[13] / 64) as u8)
    }

    /// Partial blocks for write allowed (bit 5 of byte 13).
    #[verifier::allow_in_spec]
    pub fn write_partial_blocks(&self) -> bool
        returns
            ((self.data@[13] / 32) % 2 == 1),
    {
        (self.data[13] / 32) % 2 == 1
    }

    /// File format (bits 2-3 of byte 14).
    #[verifier::allow_in_spec]
    pub fn file_format(&self) -> u8
        returns
            (self.data@[14] / 4) % 4,
    {
        (((self.data[14] / 4) % 4) as u8)
    }

    /// Temporary write protection (bit 4 of byte 14).
    #[verifier::allow_in_spec]
    pub fn temporary_write_protection(&self) -> bool
        returns
            ((self.data@[14] / 16) % 2 == 1),
    {
        (self.data[14] / 16) % 2 == 1
    }

    /// Permanent write protection (bit 5 of byte 14).
    #[verifier::allow_in_spec]
    pub fn permanent_write_protection(&self) -> bool
        returns
            ((self.data@[14] / 32) % 2 == 1),
    {
        (self.data[14] / 32) % 2 == 1
    }

    /// Copy flag (bit 6 of byte 14).
    #[verifier::allow_in_spec]
    pub fn copy_flag_set(&self) -> bool
        returns
            ((self.data@[14] / 64) % 2 == 1),
    {
        (self.data[14] / 64) % 2 == 1
    }

    /// File format group (bit 7 of byte 14).
    #[verifier::allow_in_spec]
    pub fn file_format_group_set(&self) -> bool
        returns
            ((self.data@[14] / 128) % 2 == 1),
    {
        (self.data[14] / 128) % 2 == 1
    }

    /// The CRC7 byte (byte 15).
    #[verifier::allow_in_spec]
    pub fn crc(&self) -> u8
        returns
            self.data@[15],
    {
        ((self.data[15]) as u8)
    }

    /// The capacity of the card in bytes.
    pub fn card_capacity_bytes(&self) -> (r: u64)
        ensures
            r == v1_capacity(
                self.device_size() as int,
                self.device_size_multiplier() as int,
                self.read_block_length() as int,
            ),
    {
        let multiplier = self.device_size_multiplier() + self.read_block_length() + 2;
        let size = self.device_size() as u64 + 1;
        proof {
            lemma_capacity_fits(size as int, multiplier as nat);
            vstd::bits::lemma_u64_shl_is_mul(size, multiplier as u64);
        }
        size << (multiplier as u64)
    }

    /// The capacity of the card in 512-byte blocks.
    pub fn card_capacity_blocks(&self) -> (r: u32)
        requires
            self.device_size_multiplier() + self.read_block_length() >= 7,
        ensures
            r * 512 == v1_capacity(
                self.device_size() as int,
                self.device_size_multiplier() as int,
                self.read_block_length() as int,
            ),
    {
        let multiplier = self.device_size_multiplier() + self.read_block_length() - 7;
        let size = self.device_size() + 1;
        proof {
            lemma_capacity_fits(size as int, multiplier as nat);
            vstd::bits::lemma_u32_shl_is_mul(size, multiplier as u32);
            vstd::arithmetic::power2::lemma_pow2_adds(multiplier as nat, 9);
            vstd::arithmetic::power2::lemma2_to64();
            assert(size * vstd::arithmetic::power2::pow2(multiplier as nat) * 512 == size
                * vstd::arithmetic::power2::pow2((multiplier + 9) as nat)) by (nonlinear_arith)
                requires
                    vstd::arithmetic::power2::pow2((multiplier + 9) as nat)
                        == vstd::arithmetic::power2::pow2(multiplier as nat) * 512,
            ;
        }
        size << (multiplier as u32)
    }
}

/// A device size of twelve bits times a power of two of at most 2^24 fits
/// in 64 bits, and of at most 2^16 in 32 bits.
pub(crate) proof fn lemma_capacity_fits(size: int, m: nat)
    requires
        0 < size <= 0x1000,
        m <= 24,
    ensures
        size * vstd::arithmetic::power2::pow2(m) <= 0x1000 * 0x100_0000,
        m <= 16 ==> size * vstd::arithmetic::power2::pow2(m) <= 0x1000 * 0x1_0000,
{
    vstd::arithmetic::power2::lemma2_to64();
    if m < 24 {
        vstd::arithmetic::power2::lemma_pow2_strictly_increases(m, 24);
    }
    if m < 16 {
        vstd::arithmetic::power2::lemma_pow2_strictly_increases(m, 16);
    }
    vstd::arithmetic::power2::lemma_pow2_pos(m);
    assert(size * vstd::arithmetic::power2::pow2(m) <= 0x1000 * vstd::arithmetic::power2::pow2(m))
        by (nonlinear_arith)
        requires
            0 < size <= 0x1000,
            vstd::arithmetic::power2::pow2(m) > 0,
    ;
}

impl CsdV2 {
    /// A register of zeros.
    pub fn new() -> (r: CsdV2)
        ensures
            r.data@ == Seq::new(16, |i: int| 0u8),
    {
        let r = CsdV2 { data: [0u8; 16] };
        assert(r.data@ =~= Seq::new(16, |i: int| 0u8));
        r
    }

    /// Structure version (bits 6-7 of byte 0).
    #[verifier::allow_in_spec]
    pub fn csd_ver(&self) -> u8
        returns
            self.data@[0] / 64,
    {
        ((self.data[0] / 64) as u8)
    }

    /// Data read access time 1 (byte 1).
    #[verifier::allow_in_spec]
    pub fn data_read_access_time1(&self) -> u8
        returns
            self.data@[1],
    {
        ((self.data[1]) as u8)
    }

    /// Data read access time 2, in clock cycles (byte 2).
    #[verifier::allow_in_spec]
    pub fn data_read_access_time2(&self) -> u8
        returns
            self.data@[2],
    {
        ((self.data[2]) as u8)
    }

    /// Maximum data transfer rate (byte 3).
    #[verifier::allow_in_spec]
    pub fn max_data_transfer_rate(&self) -> u8
        returns
            self.data@[3],
    {
        ((self.data[3]) as u8)
    }

    /// Card command classes (byte 4 and the top half of byte 5).
    #[verifier::allow_in_spec]
    pub fn card_command_classes(&self) -> u16
        returns
            ((self.data@[4]) * 16 + self.data@[5] / 16) as u16,
    {
        (((self.data[4]) as u16)) * 16 + ((self.data[5] / 16) as u16)
    }

    /// Maximum read block length, as a power of two (low half of byte 5).
    #[verifier::allow_in_spec]
    pub fn read_block_length(&self) -> u8
        returns
            self.data@[5] % 16,
    {
        ((self.data[5] % 16) as u8)
    }

    /// Partial blocks for read allowed (bit 7 of byte 6).
    #[verifier::allow_in_spec]
    pub fn read_partial_blocks(&self) -> bool
        returns
            ((self.data@[6] / 128) % 2 == 1),
    {
        (self.data[6] / 128) % 2 == 1
    }

    /// Write block misalignment (bit 6 of byte 6).
    #[verifier::allow_in_spec]
    pub fn write_block_misalignment(&self) -> bool
        returns
            ((self.data@[6] / 64) % 2 == 1),
    {
        (self.data[6] / 64) % 2 == 1
    }

    /// Read block misalignment (bit 5 of byte 6).
    #[verifier::allow_in_spec]
    pub fn read_block_misalignment(&self) -> bool
        returns
            ((self.data@[6] / 32) % 2 == 1),
    {
        (self.data[6] / 32) % 2 == 1
    }

    /// Driver stage register implemented (bit 4 of byte 6).
    #[verifier::allow_in_spec]
    pub fn dsr_implemented(&self) -> bool
        returns
            ((self.data@[6] / 16) % 2 == 1),
    {
        (self.data[6] / 16) % 2 == 1
    }

    /// Device size (bits 0-5 of byte 7, bytes 8 and 9).
    #[verifier::allow_in_spec]
    pub fn device_size(&self) -> u32
        returns
            (((self.data@[7] % 64) * 256 + self.data@[8]) * 256 + self.data@[9]) as u32,
    {
        ((((self.data[7] % 64) as u32)) * 256 + ((self.data[8]) as u32)) * 256 + ((self.data[9]) as u32)
    }

    /// Erasing single blocks enabled (bit 6 of byte 10).
    #[verifier::allow_in_spec]
    pub fn erase_single_block_enabled(&self) -> bool
        returns
            ((self.data@[10] / 64) % 2 == 1),
    {
        (self.data[10] / 64) % 2 == 1
    }

    /// Erase sector size (bits 0-5 of byte 10, bit 7 of byte 11).
    #[verifier::allow_in_spec]
    pub fn erase_sector_size(&self) -> u8
        returns
            ((self.data@[10] % 64) * 2 + self.data@[11] / 128) as u8,
    {
        (((self.data[10] % 64) as u8)) * 2 + ((self.data[11] / 128) as u8)
    }

    /// Write protect group size (bits 0-6 of byte 11).
    #[verifier::allow_in_spec]
    pub fn write_protect_group_size(&self) -> u8
        returns
            self.data@[11] % 128,
    {
        ((self.data[11] % 128) as u8)
    }

    /// Write protect group enable (bit 7 of byte 12).
    #[verifier::allow_in_spec]
    pub fn write_protect_group_enable(&self) -> bool
        returns
            ((self.data@[12] / 128) % 2 == 1),
    {
        (self.data[12] / 128) % 2 == 1
    }

    /// Write speed factor (bits 2-4 of byte 12).
    #[verifier::allow_in_spec]
    pub fn write_speed_factor(&self) -> u8
        returns
            (self.data@[12] / 4) % 8,
    {
        (((self.data[12] / 4) % 8) as u8)
    }

    /// Maximum write block length (bits 0-1 of byte 12, bits 6-7 of byte 13).
    #[verifier::allow_in_spec]
    pub fn max_write_data_length(&self) -> u8
        returns
            ((self.data@[12] % 4) * 4 + self.data@[13] / 64) as u8,
    {
        (((self.data[12] % 4) as u8)) * 4 + ((self.data[13] / 64) as u8)
    }

    /// Partial blocks for write allowed (bit 5 of byte 13).
    #[verifier::allow_in_spec]
    pub fn write_partial_blocks(&self) -> bool
        returns
            ((self.data@[13] / 32) % 2 == 1),
    {
        (self.data[13] / 32) % 2 == 1
    }

    /// File format (bits 2-3 of byte 14).
    #[verifier::allow_in_spec]
    pub fn file_format(&self) -> u8
        returns
            (self.data@[14] / 4) % 4,
    {
        (((self.data[14] / 4) % 4) as u8)
    }

    /// Temporary write protection (bit 4 of byte 14).
    #[verifier::allow_in_spec]
    pub fn temporary_write_protection(&self) -> bool
        returns
            ((self.data@[14] / 16) % 2 == 1),
    {
        (self.data[14] / 16) % 2 == 1
    }

    /// Permanent write protection (bit 5 of byte 14).
    #[verifier::allow_in_spec]
    pub fn permanent_write_protection(&self) -> bool
        returns
            ((self.data@[14] / 32) % 2 == 1),
    {
        (self.data[14] / 32) % 2 == 1
    }

    /// Copy flag (bit 6 of byte 14).
    #[verifier::allow_in_spec]
    pub fn copy_flag_set(&self) -> bool
        returns
            ((self.data@[14] / 64) % 2 == 1),
    {
        (self.data[14] / 64) % 2 == 1
    }

    /// File format group (bit 7 of byte 14).
    #[verifier::allow_in_spec]
    pub fn file_format_group_set(&self) -> bool
        returns
            ((self.data@[14] / 128) % 2 == 1),
    {
        (self.data[14] / 128) % 2 == 1
    }

    /// The CRC7 byte (byte 15).
    #[verifier::allow_in_spec]
    pub fn crc(&self) -> u8
        returns
            self.data@[15],
    {
        ((self.data[15]) as u8)
    }

    /// The capacity of the card in bytes: (device size + 1) units of
    /// 512 KiB.
    pub fn card_capacity_bytes(&self) -> (r: u64)
        ensures
            r == (self.device_size() + 1) * 512 * 1024,
    {
        (self.device_size() as u64 + 1) * 512 * 1024
    }

    /// The capacity of the card in 512-byte blocks.
    pub fn card_capacity_blocks(&self) -> (r: u32)
        requires
            (self.device_size() + 1) * 1024 <= u32::MAX,
        ensures
            r == (self.device_size() + 1) * 1024,
    {
        (self.device_size() + 1) * 1024
    }
}

} // verus!
