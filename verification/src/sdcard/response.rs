//! The responses of an SD card.

use crate::sdcard::argument::{bit_of, set_bit, voltage_code, voltage_of_code, with_bit, VoltageSuppliedSelect};
use vstd::prelude::*;

verus! {

/// The state of a card, as its status reports it.
#[derive(Debug, Copy, Clone, PartialEq, Eq, Structural)]
pub enum State {
    /// Idle (0).
    Idle,
    /// Ready (1).
    Ready,
    /// Identification (2).
    Ident,
    /// Stand-by (3).
    Stby,
    /// Transfer (4).
    Tran,
    /// Sending data (5).
    Data,
    /// Receiving data (6).
    Rcv,
    /// Programming (7).
    Prg,
    /// Disconnected (8).
    Dis,
    /// Reserved for I/O mode (15).
    ReservedIoMode,
}

/// The 4-bit code of a card state.
pub open spec fn state_code(s: State) -> u32 {
    match s {
        State::Idle => 0,
        State::Ready => 1,
        State::Ident => 2,
        State::Stby => 3,
        State::Tran => 4,
        State::Data => 5,
        State::Rcv => 6,
        State::Prg => 7,
        State::Dis => 8,
        State::ReservedIoMode => 15,
    }
}

/// The card state with the given 4-bit code, if one has it.
pub open spec fn state_of_code(code: u32) -> Result<State, u8> {
    if code == 0 {
        Ok(State::Idle)
    } else if code == 1 {
        Ok(State::Ready)
    } else if code == 2 {
        Ok(State::Ident)
    } else if code == 3 {
        Ok(State::Stby)
    } else if code == 4 {
        Ok(State::Tran)
    } else if code == 5 {
        Ok(State::Data)
    } else if code == 6 {
        Ok(State::Rcv)
    } else if code == 7 {
        Ok(State::Prg)
    } else if code == 8 {
        Ok(State::Dis)
    } else if code == 15 {
        Ok(State::ReservedIoMode)
    } else {
        Err(code as u8)
    }
}

impl State {
    /// The 4-bit code of this state.
    pub fn raw_value(&self) -> (r: u8)
        ensures
            r == state_code(*self),
    {
        match self {
            State::Idle => 0,
            State::Ready => 1,
            State::Ident => 2,
            State::Stby => 3,
            State::Tran => 4,
            State::Data => 5,
            State::Rcv => 6,
            State::Prg => 7,
            State::Dis => 8,
            State::ReservedIoMode => 15,
        }
    }

    /// The state with the given 4-bit code, or the code back.
    pub fn new_with_raw_value(code: u8) -> (r: Result<State, u8>)
        ensures
            r == state_of_code(code as u32),
    {
        match code {
            0 => Ok(State::Idle),
            1 => Ok(State::Ready),
            2 => Ok(State::Ident),
            3 => Ok(State::Stby),
            4 => Ok(State::Tran),
            5 => Ok(State::Data),
            6 => Ok(State::Rcv),
            7 => Ok(State::Prg),
            8 => Ok(State::Dis),
            15 => Ok(State::ReservedIoMode),
            _ => Err(code),
        }
    }
}

/// Reading back the code of a state gives the state.
pub proof fn lemma_state_code_roundtrip(s: State)
    ensures
        state_of_code(state_code(s)) == Ok::<State, u8>(s),
{
}

/// The card status register (response R1).
#[derive(Debug, Copy, Clone, PartialEq, Eq, Structural)]
pub struct CardStatus {
    raw: u32,
}

impl CardStatus {
    /// The 32 bits of the register.
    pub closed spec fn bits(&self) -> u32 {
        self.raw
    }

    /// The register with the given bits.
    pub fn new_with_raw_value(raw: u32) -> (r: CardStatus)
        ensures
            r.bits() == raw,
    {
        CardStatus { raw }
    }

    /// The 32 bits of the register.
    pub fn raw_value(&self) -> (r: u32)
        ensures
            r == self.bits(),
    {
        self.raw
    }

    /// Out of range (bit 31).
    pub fn out_of_range(&self) -> (r: bool)
        ensures
            r == bit_of(self.bits(), 31),
    {
        (self.raw >> 31u32) & 1 == 1
    }

    /// Address error (bit 30).
    pub fn address_error(&self) -> (r: bool)
        ensures
            r == bit_of(self.bits(), 30),
    {
        (self.raw >> 30u32) & 1 == 1
    }

    /// Block length error (bit 29).
    pub fn block_len_error(&self) -> (r: bool)
        ensures
            r == bit_of(self.bits(), 29),
    {
        (self.raw >> 29u32) & 1 == 1
    }

    /// Erase sequence error (bit 28).
    pub fn erase_seq_error(&self) -> (r: bool)
        ensures
            r == bit_of(self.bits(), 28),
    {
        (self.raw >> 28u32) & 1 == 1
    }

    /// Erase parameter error (bit 27).
    pub fn erase_param(&self) -> (r: bool)
        ensures
            r == bit_of(self.bits(), 27),
    {
        (self.raw >> 27u32) & 1 == 1
    }

    /// Write protect violation (bit 26).
    pub fn wp_violation(&self) -> (r: bool)
        ensures
            r == bit_of(self.bits(), 26),
    {
        (self.raw >> 26u32) & 1 == 1
    }

    /// Card is locked (bit 25).
    pub fn card_is_locked(&self) -> (r: bool)
        ensures
            r == bit_of(self.bits(), 25),
    {
        (self.raw >> 25u32) & 1 == 1
    }

    /// Lock or unlock failed (bit 24).
    pub fn lock_unlock_failed(&self) -> (r: bool)
        ensures
            r == bit_of(self.bits(), 24),
    {
        (self.raw >> 24u32) & 1 == 1
    }

    /// Command CRC error (bit 23).
    pub fn com_crc_error(&self) -> (r: bool)
        ensures
            r == bit_of(self.bits(), 23),
    {
        (self.raw >> 23u32) & 1 == 1
    }

    /// Illegal command (bit 22).
    pub fn illegal_command(&self) -> (r: bool)
        ensures
            r == bit_of(self.bits(), 22),
    {
        (self.raw >> 22u32) & 1 == 1
    }

    /// Card ECC failed (bit 21).
    pub fn card_ecc_failed(&self) -> (r: bool)
        ensures
            r == bit_of(self.bits(), 21),
    {
        (self.raw >> 21u32) & 1 == 1
    }

    /// Card controller error (bit 20).
    pub fn cc_error(&self) -> (r: bool)
        ensures
            r == bit_of(self.bits(), 20),
    {
        (self.raw >> 20u32) & 1 == 1
    }

    /// General error (bit 19).
    pub fn error(&self) -> (r: bool)
        ensures
            r == bit_of(self.bits(), 19),
    {
        (self.raw >> 19u32) & 1 == 1
    }

    /// CSD overwrite (bit 16).
    pub fn csd_overwrite(&self) -> (r: bool)
        ensures
            r == bit_of(self.bits(), 16),
    {
        (self.raw >> 16u32) & 1 == 1
    }

    /// Write protect erase skip (bit 15).
    pub fn wp_erase_skip(&self) -> (r: bool)
        ensures
            r == bit_of(self.bits(), 15),
    {
        (self.raw >> 15u32) & 1 == 1
    }

    /// Card ECC disabled (bit 14).
    pub fn card_ecc_disabled(&self) -> (r: bool)
        ensures
            r == bit_of(self.bits(), 14),
    {
        (self.raw >> 14u32) & 1 == 1
    }

    /// Erase reset (bit 13).
    pub fn erase_reset(&self) -> (r: bool)
        ensures
            r == bit_of(self.bits(), 13),
    {
        (self.raw >> 13u32) & 1 == 1
    }

    /// Ready for data (bit 8).
    pub fn ready_for_data(&self) -> (r: bool)
        ensures
            r == bit_of(self.bits(), 8),
    {
        (self.raw >> 8u32) & 1 == 1
    }

    /// Extension event (bit 6).
    pub fn fx_event(&self) -> (r: bool)
        ensures
            r == bit_of(self.bits(), 6),
    {
        (self.raw >> 6u32) & 1 == 1
    }

    /// Next command is an application command (bit 5).
    pub fn app_cmd(&self) -> (r: bool)
        ensures
            r == bit_of(self.bits(), 5),
    {
        (self.raw >> 5u32) & 1 == 1
    }

    /// Authentication sequence error (bit 3).
    pub fn ake_seq_error(&self) -> (r: bool)
        ensures
            r == bit_of(self.bits(), 3),
    {
        (self.raw >> 3u32) & 1 == 1
    }

    /// The state of the card (bits 9 to 12), if it is one.
    pub fn state(&self) -> (r: Result<State, u8>)
        ensures
            r == state_of_code((self.bits() / 512) % 16),
    {
        let code = (self.raw / 512) % 16;
        State::new_with_raw_value(code as u8)
    }

    /// The register with the state (bits 9 to 12) replaced.
    pub fn with_state(self, state: State) -> (r: CardStatus)
        ensures
            r.bits() == (self.bits() & !0x1E00u32) | (state_code(state) << 9u32),
    {
        let code = state.raw_value() as u32;
        CardStatus { raw: (self.raw & !0x1E00u32) | (code << 9u32) }
    }
}

/// The operation conditions register (response R3).
#[derive(Debug, Copy, Clone, PartialEq, Eq, Structural)]
pub struct Ocr {
    raw: u32,
}

impl Ocr {
    /// The 32 bits of the register.
    pub closed spec fn bits(&self) -> u32 {
        self.raw
    }

    /// The register with the given bits.
    pub fn new_with_raw_value(raw: u32) -> (r: Ocr)
        ensures
            r.bits() == raw,
    {
        Ocr { raw }
    }

    /// The 32 bits of the register.
    pub fn raw_value(&self) -> (r: u32)
        ensures
            r == self.bits(),
    {
        self.raw
    }

    /// Card power up status: initialization complete (bit 31).
    pub fn initialization_complete(&self) -> (r: bool)
        ensures
            r == bit_of(self.bits(), 31),
    {
        (self.raw >> 31u32) & 1 == 1
    }

    /// The register with the bit "card power up status: initialization complete" set as given.
    pub fn with_initialization_complete(self, v: bool) -> (r: Ocr)
        ensures
            r.bits() == with_bit(self.bits(), 31, v),
    {
        Ocr { raw: set_bit(self.raw, 31, v) }
    }

    /// Card capacity status: high capacity (bit 30).
    pub fn card_capacity_status(&self) -> (r: bool)
        ensures
            r == bit_of(self.bits(), 30),
    {
        (self.raw >> 30u32) & 1 == 1
    }

    /// The register with the bit "card capacity status: high capacity" set as given.
    pub fn with_card_capacity_status(self, v: bool) -> (r: Ocr)
        ensures
            r.bits() == with_bit(self.bits(), 30, v),
    {
        Ocr { raw: set_bit(self.raw, 30, v) }
    }

    /// UHS-II card status (bit 29).
    pub fn uhs_2_card_status(&self) -> (r: bool)
        ensures
            r == bit_of(self.bits(), 29),
    {
        (self.raw >> 29u32) & 1 == 1
    }

    /// The register with the bit "uhs-ii card status" set as given.
    pub fn with_uhs_2_card_status(self, v: bool) -> (r: Ocr)
        ensures
            r.bits() == with_bit(self.bits(), 29, v),
    {
        Ocr { raw: set_bit(self.raw, 29, v) }
    }

    /// Over 2TB support status (bit 27).
    pub fn over_2_tb_support_status(&self) -> (r: bool)
        ensures
            r == bit_of(self.bits(), 27),
    {
        (self.raw >> 27u32) & 1 == 1
    }

    /// The register with the bit "over 2tb support status" set as given.
    pub fn with_over_2_tb_support_status(self, v: bool) -> (r: Ocr)
        ensures
            r.bits() == with_bit(self.bits(), 27, v),
    {
        Ocr { raw: set_bit(self.raw, 27, v) }
    }

    /// Switching to 1.8V accepted (bit 24).
    pub fn s18a(&self) -> (r: bool)
        ensures
            r == bit_of(self.bits(), 24),
    {
        (self.raw >> 24u32) & 1 == 1
    }

    /// The register with the bit "switching to 1.8v accepted" set as given.
    pub fn with_s18a(self, v: bool) -> (r: Ocr)
        ensures
            r.bits() == with_bit(self.bits(), 24, v),
    {
        Ocr { raw: set_bit(self.raw, 24, v) }
    }

    /// 3.5 to 3.6 V (bit 23).
    pub fn _3_5_to_3_6v(&self) -> (r: bool)
        ensures
            r == bit_of(self.bits(), 23),
    {
        (self.raw >> 23u32) & 1 == 1
    }

    /// The register with the bit "3.5 to 3.6 v" set as given.
    pub fn with__3_5_to_3_6v(self, v: bool) -> (r: Ocr)
        ensures
            r.bits() == with_bit(self.bits(), 23, v),
    {
        Ocr { raw: set_bit(self.raw, 23, v) }
    }

    /// 3.4 to 3.5 V (bit 22).
    pub fn _3_4_to_3_5v(&self) -> (r: bool)
        ensures
            r == bit_of(self.bits(), 22),
    {
        (self.raw >> 22u32) & 1 == 1
    }

    /// The register with the bit "3.4 to 3.5 v" set as given.
    pub fn with__3_4_to_3_5v(self, v: bool) -> (r: Ocr)
        ensures
            r.bits() == with_bit(self.bits(), 22, v),
    {
        Ocr { raw: set_bit(self.raw, 22, v) }
    }

    /// 3.3 to 3.4 V (bit 21).
    pub fn _3_3_to_3_4v(&self) -> (r: bool)
        ensures
            r == bit_of(self.bits(), 21),
    {
        (self.raw >> 21u32) & 1 == 1
    }

    /// The register with the bit "3.3 to 3.4 v" set as given.
    pub fn with__3_3_to_3_4v(self, v: bool) -> (r: Ocr)
        ensures
            r.bits() == with_bit(self.bits(), 21, v),
    {
        Ocr { raw: set_bit(self.raw, 21, v) }
    }

    /// 3.2 to 3.3 V (bit 20).
    pub fn _3_2_to_3_3v(&self) -> (r: bool)
        ensures
            r == bit_of(self.bits(), 20),
    {
        (self.raw >> 20u32) & 1 == 1
    }

    /// The register with the bit "3.2 to 3.3 v" set as given.
    pub fn with__3_2_to_3_3v(self, v: bool) -> (r: Ocr)
        ensures
            r.bits() == with_bit(self.bits(), 20, v),
    {
        Ocr { raw: set_bit(self.raw, 20, v) }
    }

    /// 3.1 to 3.2 V (bit 19).
    pub fn _3_1_to_3_2v(&self) -> (r: bool)
        ensures
            r == bit_of(self.bits(), 19),
    {
        (self.raw >> 19u32) & 1 == 1
    }

    /// The register with the bit "3.1 to 3.2 v" set as given.
    pub fn with__3_1_to_3_2v(self, v: bool) -> (r: Ocr)
        ensures
            r.bits() == with_bit(self.bits(), 19, v),
    {
        Ocr { raw: set_bit(self.raw, 19, v) }
    }

    /// 3.0 to 3.1 V (bit 18).
    pub fn _3_0_to_3_1v(&self) -> (r: bool)
        ensures
            r == bit_of(self.bits(), 18),
    {
        (self.raw >> 18u32) & 1 == 1
    }

    /// The register with the bit "3.0 to 3.1 v" set as given.
    pub fn with__3_0_to_3_1v(self, v: bool) -> (r: Ocr)
        ensures
            r.bits() == with_bit(self.bits(), 18, v),
    {
        Ocr { raw: set_bit(self.raw, 18, v) }
    }

    /// 2.9 to 3.0 V (bit 17).
    pub fn _2_9_to_3_0v(&self) -> (r: bool)
        ensures
            r == bit_of(self.bits(), 17),
    {
        (self.raw >> 17u32) & 1 == 1
    }

    /// The register with the bit "2.9 to 3.0 v" set as given.
    pub fn with__2_9_to_3_0v(self, v: bool) -> (r: Ocr)
        ensures
            r.bits() == with_bit(self.bits(), 17, v),
    {
        Ocr { raw: set_bit(self.raw, 17, v) }
    }

    /// 2.8 to 2.9 V (bit 16).
    pub fn _2_8_to_2_9v(&self) -> (r: bool)
        ensures
            r == bit_of(self.bits(), 16),
    {
        (self.raw >> 16u32) & 1 == 1
    }

    /// The register with the bit "2.8 to 2.9 v" set as given.
    pub fn with__2_8_to_2_9v(self, v: bool) -> (r: Ocr)
        ensures
            r.bits() == with_bit(self.bits(), 16, v),
    {
        Ocr { raw: set_bit(self.raw, 16, v) }
    }

    /// 2.7 to 2.8 V (bit 15).
    pub fn _2_7_to_2_8v(&self) -> (r: bool)
        ensures
            r == bit_of(self.bits(), 15),
    {
        (self.raw >> 15u32) & 1 == 1
    }

    /// The register with the bit "2.7 to 2.8 v" set as given.
    pub fn with__2_7_to_2_8v(self, v: bool) -> (r: Ocr)
        ensures
            r.bits() == with_bit(self.bits(), 15, v),
    {
        Ocr { raw: set_bit(self.raw, 15, v) }
    }

    /// Reserved for low voltage range (bit 7).
    pub fn reserved_low_voltage(&self) -> (r: bool)
        ensures
            r == bit_of(self.bits(), 7),
    {
        (self.raw >> 7u32) & 1 == 1
    }

    /// The register with the bit "reserved for low voltage range" set as given.
    pub fn with_reserved_low_voltage(self, v: bool) -> (r: Ocr)
        ensures
            r.bits() == with_bit(self.bits(), 7, v),
    {
        Ocr { raw: set_bit(self.raw, 7, v) }
    }
}

/// Response R1: the card status.
pub type R1 = CardStatus;

/// Response R3: the operation conditions register.
pub type R3 = Ocr;

/// Response R6: the published relative card address and a part of the status.
#[derive(Debug, Copy, Clone, PartialEq, Eq, Structural)]
pub struct R6 {
    raw: u32,
}

impl R6 {
    /// The 32 bits of the register.
    pub closed spec fn bits(&self) -> u32 {
        self.raw
    }

    /// The register with the given bits.
    pub fn new_with_raw_value(raw: u32) -> (r: R6)
        ensures
            r.bits() == raw,
    {
        R6 { raw }
    }

    /// The 32 bits of the register.
    pub fn raw_value(&self) -> (r: u32)
        ensures
            r == self.bits(),
    {
        self.raw
    }

    /// Command CRC error (bit 15).
    pub fn com_crc_error(&self) -> (r: bool)
        ensures
            r == bit_of(self.bits(), 15),
    {
        (self.raw >> 15u32) & 1 == 1
    }

    /// The register with the bit "command crc error" set as given.
    pub fn with_com_crc_error(self, v: bool) -> (r: R6)
        ensures
            r.bits() == with_bit(self.bits(), 15, v),
    {
        R6 { raw: set_bit(self.raw, 15, v) }
    }

    /// Illegal command (bit 14).
    pub fn illegal_command(&self) -> (r: bool)
        ensures
            r == bit_of(self.bits(), 14),
    {
        (self.raw >> 14u32) & 1 == 1
    }

    /// The register with the bit "illegal command" set as given.
    pub fn with_illegal_command(self, v: bool) -> (r: R6)
        ensures
            r.bits() == with_bit(self.bits(), 14, v),
    {
        R6 { raw: set_bit(self.raw, 14, v) }
    }

    /// General error (bit 13).
    pub fn error(&self) -> (r: bool)
        ensures
            r == bit_of(self.bits(), 13),
    {
        (self.raw >> 13u32) & 1 == 1
    }

    /// The register with the bit "general error" set as given.
    pub fn with_error(self, v: bool) -> (r: R6)
        ensures
            r.bits() == with_bit(self.bits(), 13, v),
    {
        R6 { raw: set_bit(self.raw, 13, v) }
    }

    /// Ready for data (bit 8).
    pub fn ready_for_data(&self) -> (r: bool)
        ensures
            r == bit_of(self.bits(), 8),
    {
        (self.raw >> 8u32) & 1 == 1
    }

    /// The register with the bit "ready for data" set as given.
    pub fn with_ready_for_data(self, v: bool) -> (r: R6)
        ensures
            r.bits() == with_bit(self.bits(), 8, v),
    {
        R6 { raw: set_bit(self.raw, 8, v) }
    }

    /// Extension event (bit 6).
    pub fn fx_event(&self) -> (r: bool)
        ensures
            r == bit_of(self.bits(), 6),
    {
        (self.raw >> 6u32) & 1 == 1
    }

    /// The register with the bit "extension event" set as given.
    pub fn with_fx_event(self, v: bool) -> (r: R6)
        ensures
            r.bits() == with_bit(self.bits(), 6, v),
    {
        R6 { raw: set_bit(self.raw, 6, v) }
    }

    /// Next command is an application command (bit 5).
    pub fn app_cmd(&self) -> (r: bool)
        ensures
            r == bit_of(self.bits(), 5),
    {
        (self.raw >> 5u32) & 1 == 1
    }

    /// The register with the bit "next command is an application command" set as given.
    pub fn with_app_cmd(self, v: bool) -> (r: R6)
        ensures
            r.bits() == with_bit(self.bits(), 5, v),
    {
        R6 { raw: set_bit(self.raw, 5, v) }
    }

    /// Authentication sequence error (bit 3).
    pub fn ake_seq_error(&self) -> (r: bool)
        ensures
            r == bit_of(self.bits(), 3),
    {
        (self.raw >> 3u32) & 1 == 1
    }

    /// The register with the bit "authentication sequence error" set as given.
    pub fn with_ake_seq_error(self, v: bool) -> (r: R6)
        ensures
            r.bits() == with_bit(self.bits(), 3, v),
    {
        R6 { raw: set_bit(self.raw, 3, v) }
    }

    /// The state of the card (bits 9 to 12), if it is one.
    pub fn state(&self) -> (r: Result<State, u8>)
        ensures
            r == state_of_code((self.bits() / 512) % 16),
    {
        let code = (self.raw / 512) % 16;
        State::new_with_raw_value(code as u8)
    }

    /// The register with the state (bits 9 to 12) replaced.
    pub fn with_state(self, state: State) -> (r: R6)
        ensures
            r.bits() == (self.bits() & !0x1E00u32) | (state_code(state) << 9u32),
    {
        let code = state.raw_value() as u32;
        R6 { raw: (self.raw & !0x1E00u32) | (code << 9u32) }
    }

    /// The relative card address (bits 16 to 31).
    pub fn rca(&self) -> (r: u16)
        ensures
            r == self.bits() / 65536,
    {
        let v = self.raw / 65536;
        v as u16
    }

    /// The register with the relative card address replaced.
    pub fn with_rca(self, rca: u16) -> (r: R6)
        ensures
            r.bits() == (self.bits() & 0xFFFF) | ((rca as u32) << 16u32),
    {
        R6 { raw: (self.raw & 0xFFFF) | ((rca as u32) << 16u32) }
    }
}

/// Response R7: the card interface condition.
#[derive(Debug, Copy, Clone, PartialEq, Eq, Structural)]
pub struct R7 {
    raw: u32,
}

impl R7 {
    /// The 32 bits of the register.
    pub closed spec fn bits(&self) -> u32 {
        self.raw
    }

    /// The register with the given bits.
    pub fn new_with_raw_value(raw: u32) -> (r: R7)
        ensures
            r.bits() == raw,
    {
        R7 { raw }
    }

    /// The 32 bits of the register.
    pub fn raw_value(&self) -> (r: u32)
        ensures
            r == self.bits(),
    {
        self.raw
    }

    /// PCIe 1.2V support (bit 13).
    pub fn pcie_1_2v_support(&self) -> (r: bool)
        ensures
            r == bit_of(self.bits(), 13),
    {
        (self.raw >> 13u32) & 1 == 1
    }

    /// The register with the bit "pcie 1.2v support" set as given.
    pub fn with_pcie_1_2v_support(self, v: bool) -> (r: R7)
        ensures
            r.bits() == with_bit(self.bits(), 13, v),
    {
        R7 { raw: set_bit(self.raw, 13, v) }
    }

    /// PCIe accepted (bit 12).
    pub fn pcie_accepted(&self) -> (r: bool)
        ensures
            r == bit_of(self.bits(), 12),
    {
        (self.raw >> 12u32) & 1 == 1
    }

    /// The register with the bit "pcie accepted" set as given.
    pub fn with_pcie_accepted(self, v: bool) -> (r: R7)
        ensures
            r.bits() == with_bit(self.bits(), 12, v),
    {
        R7 { raw: set_bit(self.raw, 12, v) }
    }

    /// The accepted voltage (bits 8 to 11).
    pub fn voltage_accepted(&self) -> (r: Result<VoltageSuppliedSelect, u8>)
        ensures
            r == voltage_of_code((self.bits() / 256) % 16),
    {
        let code = (self.raw / 256) % 16;
        VoltageSuppliedSelect::new_with_raw_value(code as u8)
    }

    /// The register with the accepted voltage replaced.
    pub fn with_voltage_accepted(self, v: VoltageSuppliedSelect) -> (r: R7)
        ensures
            r.bits() == (self.bits() & !0xF00u32) | (voltage_code(v) << 8u32),
    {
        let code = v.raw_value() as u32;
        R7 { raw: (self.raw & !0xF00u32) | (code << 8u32) }
    }

    /// The echoed check pattern (bits 0 to 7).
    pub fn echo_check_pattern(&self) -> (r: u8)
        ensures
            r == self.bits() % 256,
    {
        let p = self.raw % 256;
        p as u8
    }

    /// The register with the echoed check pattern replaced.
    pub fn with_echo_check_pattern(self, p: u8) -> (r: R7)
        ensures
            r.bits() == (self.bits() & !0xFFu32) | (p as u32),
    {
        R7 { raw: (self.raw & !0xFFu32) | (p as u32) }
    }
}

} // verus!
