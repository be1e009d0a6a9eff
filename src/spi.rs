//! Plain configuration and error types of the serial bus layer.

use vstd::prelude::*;

verus! {

/// Clock polarity and phase.
#[derive(Debug, Clone, Copy, PartialEq, Eq, Structural)]
pub enum SpiMode {
    /// Clock idles low, data sampled on the first edge.
    Mode0,
    /// Clock idles low, data sampled on the second edge.
    Mode1,
    /// Clock idles high, data sampled on the first edge.
    Mode2,
    /// Clock idles high, data sampled on the second edge.
    Mode3,
}

/// Numeric mode as the bus driver expects it.
pub open spec fn mode_number(m: SpiMode) -> u32 {
    match m {
        SpiMode::Mode0 => 0,
        SpiMode::Mode1 => 1,
        SpiMode::Mode2 => 2,
        SpiMode::Mode3 => 3,
    }
}

impl From<SpiMode> for u32 {
    fn from(mode: SpiMode) -> (r: u32)
        ensures
            r == mode_number(mode),
    {
        match mode {
            SpiMode::Mode0 => 0,
            SpiMode::Mode1 => 1,
            SpiMode::Mode2 => 2,
            SpiMode::Mode3 => 3,
        }
    }
}

impl vstd::std_specs::convert::FromSpecImpl<SpiMode> for u32 {
    open spec fn obeys_from_spec() -> bool {
        true
    }

    open spec fn from_spec(v: SpiMode) -> u32 {
        mode_number(v)
    }
}

/// Bit order of each transferred byte.
#[derive(Debug, Clone, Copy, PartialEq, Eq, Structural)]
pub enum SpiBitOrder {
    /// Most significant bit first.
    MSBFirst,
    /// Least significant bit first.
    LSBFirst,
}

impl From<SpiBitOrder> for bool {
    /// `true` exactly for least-significant-bit-first order.
    fn from(order: SpiBitOrder) -> (r: bool)
        ensures
            r == (order == SpiBitOrder::LSBFirst),
    {
        match order {
            SpiBitOrder::MSBFirst => false,
            SpiBitOrder::LSBFirst => true,
        }
    }
}

impl vstd::std_specs::convert::FromSpecImpl<SpiBitOrder> for bool {
    open spec fn obeys_from_spec() -> bool {
        true
    }

    open spec fn from_spec(v: SpiBitOrder) -> bool {
        v == SpiBitOrder::LSBFirst
    }
}

/// Failure of a bus, pin or drawing operation.
#[derive(Debug, Clone, Copy, PartialEq, Eq, Structural)]
pub enum SpiError {
    /// The caller's data does not suffice for the request.
    InvalidParameter,
    /// The transport or a pin reported this error code.
    DriverError(i32),
    /// The bus is taken.
    BusBusy,
    /// The transfer timed out.
    Timeout,
}

/// Result of a bus-level operation.
pub type SpiResult<T> = Result<T, SpiError>;

/// Host controller a bus is attached to.
#[derive(Debug, Clone, Copy, PartialEq, Eq, Structural)]
pub enum SpiBus {
    /// Usually reserved for flash.
    Spi1,
    /// General purpose.
    Spi2,
    /// General purpose, where the chip has it.
    Spi3,
}

impl SpiBus {
    /// Host number as the bus driver expects it.
    pub fn host_id(self) -> (r: u32)
        ensures
            r == match self {
                SpiBus::Spi1 => 1u32,
                SpiBus::Spi2 => 2u32,
                SpiBus::Spi3 => 3u32,
            },
    {
        match self {
            SpiBus::Spi1 => 1,
            SpiBus::Spi2 => 2,
            SpiBus::Spi3 => 3,
        }
    }
}

/// Per-device settings fixed when a device is attached to a bus.
#[derive(Debug, Clone)]
pub struct SpiDeviceConfig {
    /// Clock frequency in Hz.
    pub clock_speed_hz: u32,
    /// Clock polarity and phase.
    pub mode: SpiMode,
    /// Bit order.
    pub bit_order: SpiBitOrder,
    /// Length of the command phase in bits.
    pub command_bits: u8,
    /// Length of the address phase in bits.
    pub address_bits: u8,
    /// Chip-select pin, if the device has one.
    pub cs_pin: Option<i32>,
    /// Depth of the in-flight transaction queue.
    pub queue_size: usize,
}

impl Default for SpiDeviceConfig {
    /// 1 MHz, mode 0, MSB first, no command or address phase, no chip select,
    /// a queue of one.
    fn default() -> (r: Self)
        ensures
            r.clock_speed_hz == 1_000_000,
            r.mode == SpiMode::Mode0,
            r.bit_order == SpiBitOrder::MSBFirst,
            r.command_bits == 0,
            r.address_bits == 0,
            r.cs_pin.is_none(),
            r.queue_size == 1,
    {
        SpiDeviceConfig {
            clock_speed_hz: 1_000_000,
            mode: SpiMode::Mode0,
            bit_order: SpiBitOrder::MSBFirst,
            command_bits: 0,
            address_bits: 0,
            cs_pin: None,
            queue_size: 1,
        }
    }
}

impl SpiDeviceConfig {
    /// Chip-select pin number for the bus driver, `-1` for none.
    pub fn cs_io_num(&self) -> (r: i32)
        ensures
            r == match self.cs_pin {
                Some(p) => p,
                None => -1i32,
            },
    {
        match self.cs_pin {
            Some(p) => p,
            None => -1,
        }
    }
}

} // verus!
