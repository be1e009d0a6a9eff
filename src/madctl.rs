//! Bits of the memory data access control (configuration) byte.

use vstd::prelude::*;

verus! {

/// Row address order (bottom to top when set).
pub const MY: u8 = 0x80;
/// Column address order (right to left when set).
pub const MX: u8 = 0x40;
/// Row/column exchange.
pub const MV: u8 = 0x20;
/// Vertical refresh order.
pub const ML: u8 = 0x10;
/// RGB color order (no bit set).
pub const RGB: u8 = 0x00;
/// BGR color order.
pub const BGR: u8 = 0x08;
/// Horizontal refresh order.
pub const MH: u8 = 0x04;

} // verus!
