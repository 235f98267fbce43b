//! Low level SD card access: the commands and registers of the SD
//! specification, its checksums, and a simulated card.

pub mod argument;
pub mod cid;
pub mod csd;
pub mod mock;
pub mod response;
pub mod sd_card_device;

use vstd::prelude::*;

verus! {

/// The different types of card we support.
#[derive(Debug, Copy, Clone, PartialEq, Eq, Structural)]
pub enum CardType {
    /// An standard-capacity SD Card supporting v1.x of the standard.
    ///
    /// Uses byte-addressing internally, so limited to 2GiB in size.
    SD1,
    /// An standard-capacity SD Card supporting v2.x of the standard.
    ///
    /// Uses byte-addressing internally, so limited to 2GiB in size.
    SD2,
    /// An high-capacity 'SDHC' Card or an extended-capacity 'SDXC' card.
    ///
    /// Uses block-addressing internally to support capacities above 2GiB.
    SdhcSdxc,
}

/// Card indicates last operation was a success.
pub const ERROR_OK: u8 = 0x00;

/// Status for card in the ready state.
pub const R1_READY_STATE: u8 = 0x00;

/// Status for card in the idle state.
pub const R1_IDLE_STATE: u8 = 0x01;

/// Status bit for illegal command.
pub const R1_ILLEGAL_COMMAND: u8 = 0x04;

/// Start data token for read or write single block.
pub const DATA_START_BLOCK: u8 = 0xFE;

/// Stop token for write multiple blocks.
pub const STOP_TRAN_TOKEN: u8 = 0xFD;

/// Start data token for write multiple blocks.
pub const WRITE_MULTIPLE_TOKEN: u8 = 0xFC;

/// Mask for data response tokens after a write block operation.
pub const DATA_RES_MASK: u8 = 0x1F;

/// Write data accepted token.
pub const DATA_RES_ACCEPTED: u8 = 0x05;

/// Raw command IDs.
#[allow(non_camel_case_types)]
#[derive(Debug, Copy, Clone, PartialEq, Eq, Structural)]
pub enum CmdId {
    /// GO_IDLE_STATE - Send cards to IDLE state (0)
    CMD0_GoIdleState,
    /// ALL_SEND_CID - Request Card IDentification (CID) (2)
    CMD2_AllSendCid,
    /// SEND_RELATIVE_ADDR - Request relative card address (RCA) (3)
    CMD3_SendRelativeAddr,
    /// SEND_IF_COND - verify SD Memory Card interface operating condition (8)
    CMD8_SendIfCond,
    /// SELECT/DESELECT_CARD - Select the active card or deselect it (7)
    CMD7_SelectCard,
    /// SEND_CSD - read the Card Specific Data (CSD register) (9)
    CMD9_SendCsd,
    /// STOP_TRANSMISSION - Stop a multiple read or write transfer (12)
    CMD12_StopTransmission,
    /// SEND_STATUS / SEND_TASK_STATUS - Read card status register (13)
    CMD13_SendStatus,
    /// READ_SINGLE_BLOCK - read a single data block from the card (17)
    CMD17_ReadSingleBlock,
    /// READ_MULTIPLE_BLOCK - read a multiple data blocks from the card (18)
    CMD18_ReadMultipleBlock,
    /// WRITE_BLOCK - write a single data block to the card (24)
    CMD24_WriteBlock,
    /// WRITE_MULTIPLE_BLOCK - write blocks of data until a STOP_TRANSMISSION (25)
    CMD25_WriteMultipleBlock,
    /// APP_CMD - escape for application specific command (55)
    CMD55_AppCmd,
    /// READ_OCR - read the OCR register of a card (58)
    CMD58_ReadOcr,
    /// CRC_ON_OFF - enable or disable CRC checking (59)
    CMD59_CrcOnOff,
}

/// The command index of each command.
pub open spec fn cmd_index(c: CmdId) -> u8 {
    match c {
        CmdId::CMD0_GoIdleState => 0,
        CmdId::CMD2_AllSendCid => 2,
        CmdId::CMD3_SendRelativeAddr => 3,
        CmdId::CMD8_SendIfCond => 8,
        CmdId::CMD7_SelectCard => 7,
        CmdId::CMD9_SendCsd => 9,
        CmdId::CMD12_StopTransmission => 12,
        CmdId::CMD13_SendStatus => 13,
        CmdId::CMD17_ReadSingleBlock => 17,
        CmdId::CMD18_ReadMultipleBlock => 18,
        CmdId::CMD24_WriteBlock => 24,
        CmdId::CMD25_WriteMultipleBlock => 25,
        CmdId::CMD55_AppCmd => 55,
        CmdId::CMD58_ReadOcr => 58,
        CmdId::CMD59_CrcOnOff => 59,
    }
}

impl CmdId {
    /// The 6-bit command index.
    pub fn raw_value(&self) -> (r: u8)
        ensures
            r == cmd_index(*self),
    {
        match self {
            CmdId::CMD0_GoIdleState => 0,
            CmdId::CMD2_AllSendCid => 2,
            CmdId::CMD3_SendRelativeAddr => 3,
            CmdId::CMD8_SendIfCond => 8,
            CmdId::CMD7_SelectCard => 7,
            CmdId::CMD9_SendCsd => 9,
            CmdId::CMD12_StopTransmission => 12,
            CmdId::CMD13_SendStatus => 13,
            CmdId::CMD17_ReadSingleBlock => 17,
            CmdId::CMD18_ReadMultipleBlock => 18,
            CmdId::CMD24_WriteBlock => 24,
            CmdId::CMD25_WriteMultipleBlock => 25,
            CmdId::CMD55_AppCmd => 55,
            CmdId::CMD58_ReadOcr => 58,
            CmdId::CMD59_CrcOnOff => 59,
        }
    }

    /// The command with the given index, or the index back when no command
    /// has it.
    pub fn new_with_raw_value(value: u8) -> (r: Result<CmdId, u8>)
        ensures
            r matches Ok(c) ==> cmd_index(c) == value,
            r matches Err(v) ==> v == value && forall|c: CmdId| cmd_index(c) != value,
    {
        match value {
            0 => Ok(CmdId::CMD0_GoIdleState),
            2 => Ok(CmdId::CMD2_AllSendCid),
            3 => Ok(CmdId::CMD3_SendRelativeAddr),
            8 => Ok(CmdId::CMD8_SendIfCond),
            7 => Ok(CmdId::CMD7_SelectCard),
            9 => Ok(CmdId::CMD9_SendCsd),
            12 => Ok(CmdId::CMD12_StopTransmission),
            13 => Ok(CmdId::CMD13_SendStatus),
            17 => Ok(CmdId::CMD17_ReadSingleBlock),
            18 => Ok(CmdId::CMD18_ReadMultipleBlock),
            24 => Ok(CmdId::CMD24_WriteBlock),
            25 => Ok(CmdId::CMD25_WriteMultipleBlock),
            55 => Ok(CmdId::CMD55_AppCmd),
            58 => Ok(CmdId::CMD58_ReadOcr),
            59 => Ok(CmdId::CMD59_CrcOnOff),
            _ => Err(value),
        }
    }
}

/// Raw application specific IDs ACMD.
#[allow(non_camel_case_types)]
#[derive(Debug, Copy, Clone, PartialEq, Eq, Structural)]
pub enum AcmdId {
    /// SET_BUS_WIDTH (6)
    ACMD6_SetBusWidth,
    /// SET_WR_BLK_ERASE_COUNT. Pre-erased before writing (23)
    ACMD23_PreErase,
    /// SD_SEND_OP_COND - Sends host capacity support information and
    /// activates the card's initialization process (41)
    ACMD41_SdSendOpCond,
}

/// The command index of each application specific command.
pub open spec fn acmd_index(c: AcmdId) -> u8 {
    match c {
        AcmdId::ACMD6_SetBusWidth => 6,
        AcmdId::ACMD23_PreErase => 23,
        AcmdId::ACMD41_SdSendOpCond => 41,
    }
}

impl AcmdId {
    /// The 6-bit command index.
    pub fn raw_value(&self) -> (r: u8)
        ensures
            r == acmd_index(*self),
    {
        match self {
            AcmdId::ACMD6_SetBusWidth => 6,
            AcmdId::ACMD23_PreErase => 23,
            AcmdId::ACMD41_SdSendOpCond => 41,
        }
    }

    /// The command with the given index, or the index back when no command
    /// has it.
    pub fn new_with_raw_value(value: u8) -> (r: Result<AcmdId, u8>)
        ensures
            r matches Ok(c) ==> acmd_index(c) == value,
            r matches Err(v) ==> v == value && forall|c: AcmdId| acmd_index(c) != value,
    {
        match value {
            6 => Ok(AcmdId::ACMD6_SetBusWidth),
            23 => Ok(AcmdId::ACMD23_PreErase),
            41 => Ok(AcmdId::ACMD41_SdSendOpCond),
            _ => Err(value),
        }
    }
}

/// Every command index names one command only.
pub proof fn lemma_cmd_index_injective(a: CmdId, b: CmdId)
    ensures
        cmd_index(a) == cmd_index(b) ==> a == b,
{
}

/// One step of the 7-bit CRC: shift the CRC left by one bit, and fold in
/// the generator polynomial x^7 + x^3 + 1 when the bit shifted out differs
/// from the top bit of the data.
pub open spec fn crc7_bit(crc: u8, d: u8) -> u8 {
    let c = (crc << 1u8) as u8;
    if (d & 0x80) ^ (c & 0x80) != 0 {
        c ^ 0x09
    } else {
        c
    }
}

/// The CRC after the top `bits` bits of `d` were fed into it.
pub open spec fn crc7_bits(crc: u8, d: u8, bits: nat) -> u8
    decreases bits,
{
    if bits == 0 {
        crc
    } else {
        crc7_bits(crc7_bit(crc, d), (d << 1u8) as u8, (bits - 1) as nat)
    }
}

/// The 8-bit register of the 7-bit CRC after the bytes of `data`.
pub open spec fn crc7_register(data: Seq<u8>) -> u8
    decreases data.len(),
{
    if data.len() == 0 {
        0
    } else {
        crc7_bits(crc7_register(data.drop_last()), data.last(), 8)
    }
}

/// One byte of the X25 (CCITT) CRC-16, in its byte-wise form.
pub open spec fn crc16_byte(crc: u16, byte: u8) -> u16 {
    let a = ((crc >> 8u16) & 0xFF) | ((crc << 8u16) as u16);
    let b = a ^ (byte as u16);
    let c = b ^ ((b & 0xFF) >> 4u16);
    let d = c ^ ((c << 12u16) as u16);
    d ^ (((d & 0xFF) << 5u16) as u16)
}

/// The CRC-16 of `data`.
pub open spec fn crc16_of(data: Seq<u8>) -> u16
    decreases data.len(),
{
    if data.len() == 0 {
        0
    } else {
        crc16_byte(crc16_of(data.drop_last()), data.last())
    }
}

/// The CRC-16 of no bytes is zero, and appending a block's CRC-16, high
/// byte first, to the block gives a CRC-16 of zero: the check a receiver
/// may make.
pub proof fn lemma_crc16_residue(data: Seq<u8>)
    ensures
        crc16_of(Seq::empty()) == 0,
        crc16_of(
            data.push((crc16_of(data) >> 8u16) as u8).push((crc16_of(data) & 0xFFu16) as u8),
        ) == 0,
{
    let c = crc16_of(data);
    let hi = (c >> 8u16) as u8;
    let lo = (c & 0xFFu16) as u8;
    let s1 = data.push(hi);
    let s2 = s1.push(lo);
    assert(s2.drop_last() =~= s1);
    assert(s1.drop_last() =~= data);
    assert(crc16_of(s1) == crc16_byte(c, hi));
    assert(crc16_of(s2) == crc16_byte(crc16_of(s1), lo));
    assert(crc16_byte(crc16_byte(c, hi), lo) == 0) by (bit_vector)
        requires
            hi == (c >> 8u16) as u8,
            lo == (c & 0xFFu16) as u8,
    ;
}

/// Calculate the 7-bit CRC used on the SD card.
pub fn crc7(data: &[u8]) -> (r: u8)
    ensures
        r == crc7_register(data@) & 0x7F,
{
    let mut crc: u8 = 0;
    let mut i: usize = 0;
    while i < data.len()
        invariant
            i <= data@.len(),
            crc == crc7_register(data@.take(i as int)),
        decreases data@.len() - i,
    {
        let mut d = data[i];
        let ghost start = crc;
        let ghost d0 = d;
        let mut bit: u32 = 0;
        while bit < 8
            invariant
                bit <= 8,
                crc7_bits(crc, d, (8 - bit) as nat) == crc7_bits(start, d0, 8),
            decreases 8 - bit,
        {
            crc = crc << 1u8;
            if ((d & 0x80) ^ (crc & 0x80)) != 0 {
                crc = crc ^ 0x09;
            }
            d = d << 1u8;
            bit = bit + 1;
        }
        assert(data@.take(i + 1).drop_last() =~= data@.take(i as int));
        i = i + 1;
    }
    assert(data@.take(data@.len() as int) =~= data@);
    crc & 0x7F
}

/// Perform the X25 CRC calculation, as used for data blocks.
pub fn crc16(data: &[u8]) -> (r: u16)
    ensures
        r == crc16_of(data@),
{
    let mut crc: u16 = 0;
    let mut i: usize = 0;
    while i < data.len()
        invariant
            i <= data@.len(),
            crc == crc16_of(data@.take(i as int)),
        decreases data@.len() - i,
    {
        let byte = data[i];
        crc = ((crc >> 8u16) & 0xFF) | (crc << 8u16);
        crc = crc ^ (byte as u16);
        crc = crc ^ ((crc & 0xFF) >> 4u16);
        crc = crc ^ (crc << 12u16);
        crc = crc ^ ((crc & 0xFF) << 5u16);
        assert(data@.take(i + 1).drop_last() =~= data@.take(i as int));
        i = i + 1;
    }
    assert(data@.take(data@.len() as int) =~= data@);
    crc
}

} // verus!
