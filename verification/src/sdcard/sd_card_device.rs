//! The errors of an SD card device on a shared SPI bus.

use vstd::prelude::*;

verus! {

/// Errors that can occur when using an SD card device.
#[derive(Copy, Clone, Eq, PartialEq, Debug, Structural)]
#[non_exhaustive]
pub enum SdCardDeviceError {
    /// An operation on the inner SPI bus failed.
    Spi,
    /// Setting the value of the Chip Select (CS) pin failed.
    Cs,
}

} // verus!
