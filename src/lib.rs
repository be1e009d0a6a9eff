//! Driver logic for a 240x240 ST7789V-class display controller reached over a
//! command/data-qualified serial bus, together with the plain configuration
//! types of the bus and pin layers it runs on.
//!
//! Every drawing request is turned into a transcript of bus operations
//! ([`bus::BusOp`]) whose contents are stated exactly by the contracts; the
//! caller plays the transcript on the hardware in order and stops at the first
//! fault.

pub mod bus;
pub mod cmd;
pub mod color;
pub mod display;
pub mod gpio;
pub mod laws;
pub mod lcd;
pub mod madctl;
pub mod model;
pub mod raster;
pub mod spi;

pub use bus::BusOp;
pub use display::{ColorFormat, DisplayRotation, DISPLAY_HEIGHT, DISPLAY_WIDTH};
pub use spi::{SpiBitOrder, SpiBus, SpiDeviceConfig, SpiError, SpiMode, SpiResult};
pub use lcd::ATKMD0130;
pub use gpio::{
    GpioDriveCap, GpioError, GpioInterruptType, GpioMode, GpioPin, GpioPullMode, GpioResult,
    InterruptArg,
};
