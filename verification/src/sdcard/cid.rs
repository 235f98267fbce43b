//! The Card IDentification register.

use crate::bytes::{be_value, u128_from_be_bytes};
use crate::sdcard::csd::{bits, crc_matches, crc_ok, reg_bits};
use vstd::prelude::*;

verus! {

/// Checksum is invalid.
#[derive(Debug, PartialEq, Eq, Copy, Clone, Structural)]
pub struct ChecksumInvalidError;

/// Card IDentification (CID) register structure.
#[derive(Debug, Clone, Copy, PartialEq, Eq, Structural)]
pub struct Cid {
    raw: u128,
}

impl Cid {
    /// The raw value of the register.
    pub closed spec fn spec_raw(&self) -> u128 {
        self.raw
    }

    /// The register with the given raw value.
    pub fn new_with_raw_value(raw: u128) -> (r: Cid)
        ensures
            r.spec_raw() == raw,
    {
        Cid { raw }
    }

    /// The raw value of the register.
    pub fn raw_value(&self) -> (r: u128)
        ensures
            r == self.spec_raw(),
    {
        self.raw
    }

    /// Construct a [Cid] from a raw byte slice with 16 bytes.
    ///
    /// Also verifies the CRC7 checksum.
    pub fn new(raw: &[u8; 16]) -> (r: Result<Cid, ChecksumInvalidError>)
        ensures
            r is Ok <==> crc_ok(be_value(raw@) as u128),
            r matches Ok(c) ==> c.spec_raw() == be_value(raw@),
    {
        let cid = Cid::new_with_raw_value(u128_from_be_bytes(raw));
        if !cid.verify_crc7() {
            return Err(ChecksumInvalidError);
        }
        Ok(cid)
    }

    /// Construct a [Cid] without verifying the checksum.
    pub fn new_unchecked(raw: &[u8; 16]) -> (r: Cid)
        ensures
            r.spec_raw() == be_value(raw@),
    {
        Cid::new_with_raw_value(u128_from_be_bytes(raw))
    }

    /// Verify CRC7 checksum.
    pub fn verify_crc7(&self) -> (r: bool)
        ensures
            r == crc_ok(self.spec_raw()),
    {
        crc_matches(self.raw)
    }

    /// MID: the manufacturer.
    pub fn manufacturer_id(&self) -> (r: u8)
        ensures
            r == reg_bits(self.spec_raw(), 120, 0xFF),
    {
        bits(self.raw, 120, 0xFF) as u8
    }

    /// OID: the OEM and application.
    pub fn oem_id(&self) -> (r: u16)
        ensures
            r == reg_bits(self.spec_raw(), 104, 0xFFFF),
    {
        bits(self.raw, 104, 0xFFFF) as u16
    }

    /// PNM: the product name, as its forty bits.
    pub fn product_name_raw(&self) -> (r: u64)
        ensures
            r == reg_bits(self.spec_raw(), 64, 0xFF_FFFF_FFFF),
    {
        bits(self.raw, 64, 0xFF_FFFF_FFFF) as u64
    }

    /// PSN: the serial number.
    pub fn product_serial_number(&self) -> (r: u32)
        ensures
            r == reg_bits(self.spec_raw(), 24, 0xFFFF_FFFF),
    {
        bits(self.raw, 24, 0xFFFF_FFFF) as u32
    }

    /// MDT: the manufacturing date.
    pub fn manufacturing_date(&self) -> (r: u16)
        ensures
            r == reg_bits(self.spec_raw(), 8, 0xFFF),
    {
        bits(self.raw, 8, 0xFFF) as u16
    }

    /// CRC: the CRC7 checksum of the first fifteen bytes.
    pub fn crc7(&self) -> (r: u8)
        ensures
            r == reg_bits(self.spec_raw(), 1, 0x7F),
    {
        bits(self.raw, 1, 0x7F) as u8
    }

    /// Product name as a byte array.
    pub fn product_name_bytes(&self) -> (r: [u8; 5])
        ensures
            forall|k: int|
                0 <= k < 5 ==> r@[k] == reg_bits(self.spec_raw(), (64 + 8 * (4 - k)) as u32, 0xFF),
    {
        let mut name = [0u8; 5];
        let mut k: usize = 0;
        while k < 5
            invariant
                k <= 5,
                name@.len() == 5,
                forall|j: int|
                    0 <= j < k ==> name@[j] == reg_bits(self.raw, (64 + 8 * (4 - j)) as u32, 0xFF),
            decreases 5 - k,
        {
            let lo: u32 = (64 + 8 * (4 - k)) as u32;
            name[k] = bits(self.raw, lo, 0xFF) as u8;
            k = k + 1;
        }
        name
    }
}

} // verus!
