//! Controller command opcodes.

use vstd::prelude::*;

verus! {

/// No operation.
pub const NOP: u8 = 0x00;
/// Software reset.
pub const SWRESET: u8 = 0x01;
/// Read display identification.
pub const RDDID: u8 = 0x04;
/// Read display status.
pub const RDDST: u8 = 0x09;
/// Enter sleep mode.
pub const SLPIN: u8 = 0x10;
/// Leave sleep mode.
pub const SLPOUT: u8 = 0x11;
/// Partial display mode on.
pub const PTLON: u8 = 0x12;
/// Normal display mode on.
pub const NORON: u8 = 0x13;
/// Display inversion off.
pub const INVOFF: u8 = 0x20;
/// Display inversion on.
pub const INVON: u8 = 0x21;
/// Display off.
pub const DISPOFF: u8 = 0x28;
/// Display on.
pub const DISPON: u8 = 0x29;
/// Column address set.
pub const CASET: u8 = 0x2A;
/// Row address set.
pub const RASET: u8 = 0x2B;
/// Memory write.
pub const RAMWR: u8 = 0x2C;
/// Memory read.
pub const RAMRD: u8 = 0x2E;
/// Memory data access control (the configuration byte).
pub const MADCTL: u8 = 0x36;
/// Interface pixel format.
pub const COLMOD: u8 = 0x3A;
/// Frame rate control, normal mode.
pub const FRMCTR1: u8 = 0xB1;
/// Frame rate control, idle mode.
pub const FRMCTR2: u8 = 0xB2;
/// Frame rate control, partial mode.
pub const FRMCTR3: u8 = 0xB3;
/// Display inversion control.
pub const INVCTR: u8 = 0xB4;
/// Power control 1.
pub const PWCTR1: u8 = 0xC0;
/// Power control 2.
pub const PWCTR2: u8 = 0xC1;
/// Power control 3.
pub const PWCTR3: u8 = 0xC2;
/// Power control 4.
pub const PWCTR4: u8 = 0xC3;
/// Power control 5.
pub const PWCTR5: u8 = 0xC4;
/// VCOM control 1.
pub const VMCTR1: u8 = 0xC5;
/// Positive polarity gamma correction.
pub const GMCTRP1: u8 = 0xE0;
/// Negative polarity gamma correction.
pub const GMCTRN1: u8 = 0xE1;

} // verus!
