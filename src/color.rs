//! Common colors in RGB565.

use vstd::prelude::*;

verus! {

pub const BLACK: u16 = 0x0000;
pub const BLUE: u16 = 0x001F;
pub const RED: u16 = 0xF800;
pub const GREEN: u16 = 0x07E0;
pub const CYAN: u16 = 0x07FF;
pub const MAGENTA: u16 = 0xF81F;
pub const YELLOW: u16 = 0xFFE0;
pub const WHITE: u16 = 0xFFFF;
pub const GRAY: u16 = 0x8430;
pub const LIGHT_GRAY: u16 = 0xC618;
pub const DARK_GRAY: u16 = 0x4208;
pub const NAVY: u16 = 0x000F;
pub const DARK_GREEN: u16 = 0x03E0;
pub const DARK_CYAN: u16 = 0x03EF;
pub const MAROON: u16 = 0x7800;
pub const PURPLE: u16 = 0x780F;
pub const OLIVE: u16 = 0x7BE0;
pub const ORANGE: u16 = 0xFD20;
pub const PINK: u16 = 0xFE19;
pub const BROWN: u16 = 0xA145;

} // verus!
