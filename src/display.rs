//! Panel geometry, orientations and pixel formats.

use vstd::prelude::*;

use crate::madctl;

verus! {

/// Native column count of the panel.
pub const DISPLAY_WIDTH: u16 = 240;

/// Native row count of the panel.
pub const DISPLAY_HEIGHT: u16 = 240;

/// Pixel encoding selected on the controller.
#[derive(Debug, Clone, Copy, PartialEq, Eq, Structural)]
pub enum ColorFormat {
    /// 16 bits per pixel, 5-6-5.
    RGB565,
    /// 24 bits of data per pixel (the controller keeps 18).
    RGB888,
}

/// Orientation of the logical canvas relative to the panel.
#[derive(Debug, Clone, Copy, PartialEq, Eq, Structural)]
pub enum DisplayRotation {
    /// 0 degrees.
    Portrait,
    /// 90 degrees clockwise.
    Landscape,
    /// 180 degrees.
    PortraitFlipped,
    /// 270 degrees clockwise.
    LandscapeFlipped,
}

/// The configuration byte that realises an orientation.
pub open spec fn rotation_byte(r: DisplayRotation) -> u8 {
    match r {
        DisplayRotation::Portrait => madctl::MX | madctl::BGR,
        DisplayRotation::Landscape => madctl::MV | madctl::BGR,
        DisplayRotation::PortraitFlipped => madctl::MY | madctl::BGR,
        DisplayRotation::LandscapeFlipped => madctl::MV | madctl::MY | madctl::BGR,
    }
}

/// Whether an orientation exchanges rows and columns.
pub open spec fn is_landscape(r: DisplayRotation) -> bool {
    r == DisplayRotation::Landscape || r == DisplayRotation::LandscapeFlipped
}

/// Logical (width, height) of the canvas under an orientation.
pub open spec fn extent_of(r: DisplayRotation) -> (u16, u16) {
    if is_landscape(r) {
        (DISPLAY_HEIGHT, DISPLAY_WIDTH)
    } else {
        (DISPLAY_WIDTH, DISPLAY_HEIGHT)
    }
}

/// The pixel format parameter of an interface format.
pub open spec fn format_byte(f: ColorFormat) -> u8 {
    match f {
        ColorFormat::RGB565 => 0x55,
        ColorFormat::RGB888 => 0x66,
    }
}

impl DisplayRotation {
    /// The configuration byte for this orientation.
    pub fn config_byte(self) -> (r: u8)
        ensures
            r == rotation_byte(self),
    {
        match self {
            DisplayRotation::Portrait => madctl::MX | madctl::BGR,
            DisplayRotation::Landscape => madctl::MV | madctl::BGR,
            DisplayRotation::PortraitFlipped => madctl::MY | madctl::BGR,
            DisplayRotation::LandscapeFlipped => madctl::MV | madctl::MY | madctl::BGR,
        }
    }

    /// Logical (width, height) of the canvas under this orientation.
    pub fn extent(self) -> (r: (u16, u16))
        ensures
            r == extent_of(self),
    {
        match self {
            DisplayRotation::Portrait | DisplayRotation::PortraitFlipped => (
                DISPLAY_WIDTH,
                DISPLAY_HEIGHT,
            ),
            DisplayRotation::Landscape | DisplayRotation::LandscapeFlipped => (
                DISPLAY_HEIGHT,
                DISPLAY_WIDTH,
            ),
        }
    }
}

impl ColorFormat {
    /// The interface pixel format parameter for this format.
    pub fn format_byte(self) -> (r: u8)
        ensures
            r == format_byte(self),
    {
        match self {
            ColorFormat::RGB565 => 0x55,
            ColorFormat::RGB888 => 0x66,
        }
    }
}

} // verus!
