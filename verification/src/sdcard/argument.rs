//! The 32-bit arguments of SD card commands.

use vstd::prelude::*;

verus! {

/// Bit `i` of `v`.
pub open spec fn bit_of(v: u32, i: u32) -> bool {
    (v >> i) & 1 == 1
}

/// `v` with bit `i` set to `b`.
pub open spec fn with_bit(v: u32, i: u32, b: bool) -> u32 {
    if b {
        v | (1u32 << i)
    } else {
        v & !(1u32 << i)
    }
}

/// Sets or clears bit `i` of `v`.
pub fn set_bit(v: u32, i: u32, b: bool) -> (r: u32)
    requires
        i < 32,
    ensures
        r == with_bit(v, i, b),
{
    if b {
        v | (1u32 << i)
    } else {
        v & !(1u32 << i)
    }
}

/// Voltage range that the host supplies (CMD8).
#[derive(Debug, Copy, Clone, PartialEq, Eq, Structural)]
pub enum VoltageSuppliedSelect {
    /// 2.7 to 3.6 V (0b0001).
    _2_7To3_6V,
    /// Reserved for low voltage range (0b0010).
    LowVoltageRange,
}

/// The 4-bit code of a supplied voltage range.
pub open spec fn voltage_code(v: VoltageSuppliedSelect) -> u32 {
    match v {
        VoltageSuppliedSelect::_2_7To3_6V => 1,
        VoltageSuppliedSelect::LowVoltageRange => 2,
    }
}

/// The supplied voltage range with the given 4-bit code, if one has it.
pub open spec fn voltage_of_code(code: u32) -> Result<VoltageSuppliedSelect, u8> {
    if code == 1 {
        Ok(VoltageSuppliedSelect::_2_7To3_6V)
    } else if code == 2 {
        Ok(VoltageSuppliedSelect::LowVoltageRange)
    } else {
        Err(code as u8)
    }
}

impl VoltageSuppliedSelect {
    /// The 4-bit code of this voltage range.
    pub fn raw_value(&self) -> (r: u8)
        ensures
            r == voltage_code(*self),
    {
        match self {
            VoltageSuppliedSelect::_2_7To3_6V => 1,
            VoltageSuppliedSelect::LowVoltageRange => 2,
        }
    }

    /// The voltage range with the given 4-bit code, or the code back.
    pub fn new_with_raw_value(code: u8) -> (r: Result<VoltageSuppliedSelect, u8>)
        ensures
            r == voltage_of_code(code as u32),
    {
        if code == 1 {
            Ok(VoltageSuppliedSelect::_2_7To3_6V)
        } else if code == 2 {
            Ok(VoltageSuppliedSelect::LowVoltageRange)
        } else {
            Err(code)
        }
    }
}

impl Default for VoltageSuppliedSelect {
    fn default() -> (r: VoltageSuppliedSelect)
        ensures
            r == VoltageSuppliedSelect::_2_7To3_6V,
    {
        VoltageSuppliedSelect::_2_7To3_6V
    }
}

/// Argument of CMD8 (SEND_IF_COND).
#[derive(Debug, Copy, Clone, PartialEq, Eq, Structural)]
pub struct Cmd8 {
    raw: u32,
}

impl Cmd8 {
    /// The 32 bits of the argument.
    pub closed spec fn bits(&self) -> u32 {
        self.raw
    }

    /// The argument with the given bits.
    pub fn new_with_raw_value(raw: u32) -> (r: Cmd8)
        ensures
            r.bits() == raw,
    {
        Cmd8 { raw }
    }

    /// The 32 bits of the argument.
    pub fn raw_value(&self) -> (r: u32)
        ensures
            r == self.bits(),
    {
        self.raw
    }

    /// PCIe 1.2V support (bit 13).
    pub fn pcie_1_2v_support(&self) -> (r: bool)
        ensures
            r == bit_of(self.bits(), 13),
    {
        (self.raw >> 13u32) & 1 == 1
    }

    /// PCIe availability (bit 12).
    pub fn pcie_availability(&self) -> (r: bool)
        ensures
            r == bit_of(self.bits(), 12),
    {
        (self.raw >> 12u32) & 1 == 1
    }

    /// The supplied voltage (bits 8 to 11).
    pub fn voltage_supplied(&self) -> (r: Result<VoltageSuppliedSelect, u8>)
        ensures
            r == voltage_of_code((self.bits() / 256) % 16),
    {
        let code = (self.raw / 256) % 16;
        VoltageSuppliedSelect::new_with_raw_value(code as u8)
    }

    /// The check pattern (bits 0 to 7), echoed back by the card.
    pub fn check_pattern(&self) -> (r: u8)
        ensures
            r == self.bits() % 256,
    {
        let p = self.raw % 256;
        p as u8
    }
}

/// Power control of ACMD41.
#[derive(Debug, Copy, Clone, PartialEq, Eq, Structural)]
pub enum PowerControl {
    /// Power saving (0).
    PowerSaving,
    /// Maximum performance (1).
    MaximumPerformance,
}

/// Host capacity support of ACMD41.
#[derive(Debug, Copy, Clone, PartialEq, Eq, Structural)]
pub enum HostCapacitySupport {
    /// Standard capacity cards only (0).
    SdscOnly,
    /// High or extended capacity cards too (1).
    SdhcOrSdxc,
}

/// The voltage window of an operation condition register (the lower 24
/// bits of the OCR).
#[derive(Debug, Copy, Clone, PartialEq, Eq, Structural)]
pub struct OcrLower {
    raw: u32,
}

impl OcrLower {
    /// The 24 bits of the window.
    pub closed spec fn bits(&self) -> u32 {
        self.raw
    }

    /// The window with the low 24 bits of `raw`.
    pub fn new_with_raw_value(raw: u32) -> (r: OcrLower)
        ensures
            r.bits() == raw & 0xFF_FFFF,
    {
        OcrLower { raw: raw & 0xFF_FFFF }
    }

    /// The 24 bits of the window.
    pub fn raw_value(&self) -> (r: u32)
        ensures
            r == self.bits(),
    {
        self.raw
    }

    /// 2.7 to 2.8 V (bit 15).
    pub fn _2_7_to_2_8v(&self) -> (r: bool)
        ensures
            r == bit_of(self.bits(), 15),
    {
        (self.raw >> 15u32) & 1 == 1
    }

    /// 3.2 to 3.3 V (bit 20).
    pub fn _3_2_to_3_3v(&self) -> (r: bool)
        ensures
            r == bit_of(self.bits(), 20),
    {
        (self.raw >> 20u32) & 1 == 1
    }

    /// 3.3 to 3.4 V (bit 21).
    pub fn _3_3_to_3_4v(&self) -> (r: bool)
        ensures
            r == bit_of(self.bits(), 21),
    {
        (self.raw >> 21u32) & 1 == 1
    }
}

/// Bus width selected by ACMD6.
#[derive(Debug, Copy, Clone, PartialEq, Eq, Structural)]
pub enum BusWidth {
    /// One data line (0b00).
    _1bit,
    /// Four data lines (0b10).
    _4bits,
}

/// Argument of ACMD6 (SET_BUS_WIDTH).
#[derive(Debug, Copy, Clone, PartialEq, Eq, Structural)]
pub struct Acmd6 {
    raw: u32,
}

impl Acmd6 {
    /// The 32 bits of the argument.
    pub closed spec fn bits(&self) -> u32 {
        self.raw
    }

    /// The argument with the given bits.
    pub fn new_with_raw_value(raw: u32) -> (r: Acmd6)
        ensures
            r.bits() == raw,
    {
        Acmd6 { raw }
    }

    /// The 32 bits of the argument.
    pub fn raw_value(&self) -> (r: u32)
        ensures
            r == self.bits(),
    {
        self.raw
    }

    /// The bus width (bits 0 and 1): 0b00 for one line, 0b10 for four.
    pub fn bus_width(&self) -> (r: Result<BusWidth, u8>)
        ensures
            self.bits() % 4 == 0 ==> r == Ok::<BusWidth, u8>(BusWidth::_1bit),
            self.bits() % 4 == 2 ==> r == Ok::<BusWidth, u8>(BusWidth::_4bits),
            self.bits() % 4 != 0 && self.bits() % 4 != 2 ==> r == Err::<BusWidth, u8>(
                (self.bits() % 4) as u8,
            ),
    {
        let code = self.raw % 4;
        if code == 0 {
            Ok(BusWidth::_1bit)
        } else if code == 2 {
            Ok(BusWidth::_4bits)
        } else {
            Err(code as u8)
        }
    }
}

/// Argument of ACMD41 (SD_SEND_OP_COND).
#[derive(Debug, Copy, Clone, PartialEq, Eq, Structural)]
pub struct Acmd41 {
    raw: u32,
}

impl Acmd41 {
    /// The 32 bits of the argument.
    pub closed spec fn bits(&self) -> u32 {
        self.raw
    }

    /// The argument with the given bits.
    pub fn new_with_raw_value(raw: u32) -> (r: Acmd41)
        ensures
            r.bits() == raw,
    {
        Acmd41 { raw }
    }

    /// The 32 bits of the argument.
    pub fn raw_value(&self) -> (r: u32)
        ensures
            r == self.bits(),
    {
        self.raw
    }

    /// Host capacity support (bit 30).
    pub fn host_capacity_support(&self) -> (r: HostCapacitySupport)
        ensures
            r == if bit_of(self.bits(), 30) {
                HostCapacitySupport::SdhcOrSdxc
            } else {
                HostCapacitySupport::SdscOnly
            },
    {
        if (self.raw >> 30u32) & 1 == 1 {
            HostCapacitySupport::SdhcOrSdxc
        } else {
            HostCapacitySupport::SdscOnly
        }
    }

    /// Fast boot (bit 29).
    pub fn fast_boot(&self) -> (r: bool)
        ensures
            r == bit_of(self.bits(), 29),
    {
        (self.raw >> 29u32) & 1 == 1
    }

    /// Power control (bit 28).
    pub fn xpc(&self) -> (r: PowerControl)
        ensures
            r == if bit_of(self.bits(), 28) {
                PowerControl::MaximumPerformance
            } else {
                PowerControl::PowerSaving
            },
    {
        if (self.raw >> 28u32) & 1 == 1 {
            PowerControl::MaximumPerformance
        } else {
            PowerControl::PowerSaving
        }
    }

    /// Switching to 1.8V request (bit 24).
    pub fn s18r(&self) -> (r: bool)
        ensures
            r == bit_of(self.bits(), 24),
    {
        (self.raw >> 24u32) & 1 == 1
    }

    /// The voltage window (bits 0 to 23).
    pub fn ocr(&self) -> (r: OcrLower)
        ensures
            r.bits() == self.bits() & 0xFF_FFFF,
    {
        OcrLower::new_with_raw_value(self.raw)
    }

    /// The argument with the host capacity support bit set as given.
    pub fn with_host_capacity_support(self, v: HostCapacitySupport) -> (r: Acmd41)
        ensures
            r.bits() == with_bit(self.bits(), 30, v == HostCapacitySupport::SdhcOrSdxc),
    {
        Acmd41 { raw: set_bit(self.raw, 30, v == HostCapacitySupport::SdhcOrSdxc) }
    }

    /// The argument with the voltage window replaced.
    pub fn with_ocr(self, ocr: OcrLower) -> (r: Acmd41)
        ensures
            r.bits() == (self.bits() & 0xFF00_0000) | (ocr.bits() & 0xFF_FFFF),
    {
        Acmd41 { raw: (self.raw & 0xFF00_0000) | (ocr.raw & 0xFF_FFFF) }
    }
}

/// Argument of the commands that address a card by its relative address
/// (CMD7, CMD9).
#[derive(Debug, Copy, Clone, PartialEq, Eq, Structural)]
pub struct RcaSelect {
    raw: u32,
}

impl RcaSelect {
    /// The 32 bits of the argument.
    pub closed spec fn bits(&self) -> u32 {
        self.raw
    }

    /// The argument with the given bits.
    pub fn new_with_raw_value(raw: u32) -> (r: RcaSelect)
        ensures
            r.bits() == raw,
    {
        RcaSelect { raw }
    }

    /// The 32 bits of the argument.
    pub fn raw_value(&self) -> (r: u32)
        ensures
            r == self.bits(),
    {
        self.raw
    }

    /// The relative card address (bits 16 to 31).
    pub fn rca(&self) -> (r: u16)
        ensures
            r == self.bits() / 65536,
    {
        let v = self.raw / 65536;
        v as u16
    }

    /// The argument with the relative card address replaced.
    pub fn with_rca(self, rca: u16) -> (r: RcaSelect)
        ensures
            r.bits() == (self.bits() & 0xFFFF) | ((rca as u32) << 16u32),
    {
        RcaSelect { raw: (self.raw & 0xFFFF) | ((rca as u32) << 16u32) }
    }
}

/// Argument of CMD9 (SEND_CSD).
pub type Cmd9 = RcaSelect;

/// Argument of CMD7 (SELECT_CARD).
pub type Cmd7 = RcaSelect;

/// Argument of CMD13 (SEND_STATUS).
#[derive(Debug, Copy, Clone, PartialEq, Eq, Structural)]
pub struct Cmd13 {
    raw: u32,
}

impl Cmd13 {
    /// The 32 bits of the argument.
    pub closed spec fn bits(&self) -> u32 {
        self.raw
    }

    /// The argument with the given bits.
    pub fn new_with_raw_value(raw: u32) -> (r: Cmd13)
        ensures
            r.bits() == raw,
    {
        Cmd13 { raw }
    }

    /// The 32 bits of the argument.
    pub fn raw_value(&self) -> (r: u32)
        ensures
            r == self.bits(),
    {
        self.raw
    }

    /// The relative card address (bits 16 to 31).
    pub fn rca(&self) -> (r: u16)
        ensures
            r == self.bits() / 65536,
    {
        let v = self.raw / 65536;
        v as u16
    }

    /// Whether the task status is asked for instead (bit 15).
    pub fn send_task_status(&self) -> (r: bool)
        ensures
            r == bit_of(self.bits(), 15),
    {
        (self.raw >> 15u32) & 1 == 1
    }
}

} // verus!
