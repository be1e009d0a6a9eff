//! Plain types and conversions of the pin layer: modes, pulls, interrupt
//! triggers and drive strengths as the pin driver numbers them, and the
//! configuration record of one pin.

use vstd::prelude::*;

verus! {

/// Failure of a pin operation.
#[derive(Debug, Clone, Copy, PartialEq, Eq, Structural)]
pub enum GpioError {
    /// The driver rejected the configuration.
    ConfigError,
    /// No such pin.
    InvalidGpio,
    /// Interrupt set-up failed.
    InterruptError,
    /// Any other driver failure.
    SystemError,
}

/// Result of a pin operation.
pub type GpioResult<T> = Result<T, GpioError>;

/// Direction of a pin.
#[derive(Debug, Clone, Copy, PartialEq, Eq, Structural)]
pub enum GpioMode {
    /// Neither input nor output.
    Disable,
    /// Input only.
    Input,
    /// Push-pull output.
    Output,
    /// Open-drain output.
    OutputOpenDrain,
    /// Input and push-pull output.
    InputOutput,
    /// Input and open-drain output.
    InputOutputOpenDrain,
}

/// Pull resistors of a pin.
#[derive(Debug, Clone, Copy, PartialEq, Eq, Structural)]
pub enum GpioPullMode {
    /// Pull-up only.
    PullUp,
    /// Pull-down only.
    PullDown,
    /// Both.
    PullUpDown,
    /// Neither.
    Floating,
}

/// Interrupt trigger of a pin.
#[derive(Debug, Clone, Copy, PartialEq, Eq, Structural)]
pub enum GpioInterruptType {
    /// No interrupt.
    Disable,
    /// Rising edge.
    RisingEdge,
    /// Falling edge.
    FallingEdge,
    /// Either edge.
    AnyEdge,
    /// Low level.
    LowLevel,
    /// High level.
    HighLevel,
}

/// Output drive strength of a pin.
#[derive(Debug, Clone, Copy, PartialEq, Eq, Structural)]
pub enum GpioDriveCap {
    /// Weakest.
    Weak,
    /// Stronger.
    Stronger,
    /// Medium.
    Medium,
    /// Strongest.
    Strongest,
}

pub open spec fn mode_code(mode: GpioMode) -> u32 {
    match mode {
        GpioMode::Disable => 0,
        GpioMode::Input => 1,
        GpioMode::Output => 2,
        GpioMode::OutputOpenDrain => 3,
        GpioMode::InputOutput => 4,
        GpioMode::InputOutputOpenDrain => 5,
    }
}

pub open spec fn pull_code(mode: GpioPullMode) -> u32 {
    match mode {
        GpioPullMode::PullUp => 1,
        GpioPullMode::PullDown => 2,
        GpioPullMode::PullUpDown => 3,
        GpioPullMode::Floating => 0,
    }
}

pub open spec fn intr_code(t: GpioInterruptType) -> u32 {
    match t {
        GpioInterruptType::Disable => 0,
        GpioInterruptType::RisingEdge => 2,
        GpioInterruptType::FallingEdge => 3,
        GpioInterruptType::AnyEdge => 4,
        GpioInterruptType::LowLevel => 1,
        GpioInterruptType::HighLevel => 5,
    }
}

pub open spec fn drive_code(cap: GpioDriveCap) -> u32 {
    match cap {
        GpioDriveCap::Weak => 0,
        GpioDriveCap::Stronger => 1,
        GpioDriveCap::Medium => 2,
        GpioDriveCap::Strongest => 3,
    }
}

/// The driver's number for a pin mode.
pub fn convert_mode(mode: GpioMode) -> (r: u32)
    ensures
        r == mode_code(mode),
{
    match mode {
        GpioMode::Disable => 0,
        GpioMode::Input => 1,
        GpioMode::Output => 2,
        GpioMode::OutputOpenDrain => 3,
        GpioMode::InputOutput => 4,
        GpioMode::InputOutputOpenDrain => 5,
    }
}

/// The driver's number for a pull configuration.
pub fn convert_pull_mode(mode: GpioPullMode) -> (r: u32)
    ensures
        r == pull_code(mode),
{
    match mode {
        GpioPullMode::PullUp => 1,
        GpioPullMode::PullDown => 2,
        GpioPullMode::PullUpDown => 3,
        GpioPullMode::Floating => 0,
    }
}

/// The driver's number for an interrupt trigger.
pub fn convert_intr_type(intr_type: GpioInterruptType) -> (r: u32)
    ensures
        r == intr_code(intr_type),
{
    match intr_type {
        GpioInterruptType::Disable => 0,
        GpioInterruptType::RisingEdge => 2,
        GpioInterruptType::FallingEdge => 3,
        GpioInterruptType::AnyEdge => 4,
        GpioInterruptType::LowLevel => 1,
        GpioInterruptType::HighLevel => 5,
    }
}

/// The driver's number for a drive strength.
pub fn convert_drive_cap(cap: GpioDriveCap) -> (r: u32)
    ensures
        r == drive_code(cap),
{
    match cap {
        GpioDriveCap::Weak => 0,
        GpioDriveCap::Stronger => 1,
        GpioDriveCap::Medium => 2,
        GpioDriveCap::Strongest => 3,
    }
}

/// Configuration record handed to the pin driver for one pin.
#[derive(Debug, Clone, Copy, PartialEq, Eq, Structural)]
pub struct PinConfig {
    /// One bit set: the pin's.
    pub pin_bit_mask: u64,
    /// Mode number.
    pub mode: u32,
    /// 1 when the pull-up is on.
    pub pull_up_en: u32,
    /// 1 when the pull-down is on.
    pub pull_down_en: u32,
    /// Interrupt trigger number.
    pub intr_type: u32,
}

/// One pin, by number.
#[derive(Debug, Clone, Copy, PartialEq, Eq, Structural)]
pub struct GpioPin {
    gpio_num: i32,
}

impl View for GpioPin {
    type V = int;

    closed spec fn view(&self) -> int {
        self.gpio_num as int
    }
}

impl GpioPin {
    /// The pin with this number.
    pub fn new(pin: u32) -> (r: Self)
        requires
            pin <= i32::MAX,
        ensures
            r@ == pin,
    {
        GpioPin { gpio_num: pin as i32 }
    }

    /// The pin's number.
    pub fn get_pin_number(&self) -> (r: i32)
        ensures
            r == self@,
    {
        self.gpio_num
    }

    /// The configuration record for this pin; `InvalidGpio` for a number
    /// that has no bit in the mask.
    pub fn config(&self, mode: GpioMode, pull_mode: GpioPullMode, intr_type: GpioInterruptType) -> (r:
        GpioResult<PinConfig>)
        ensures
            !(0 <= self@ < 64) <==> r == Err::<PinConfig, GpioError>(GpioError::InvalidGpio),
            r matches Ok(c) ==> {
                &&& c.pin_bit_mask == 1u64 << (self@ as u64)
                &&& c.mode == mode_code(mode)
                &&& c.pull_up_en == (if pull_mode == GpioPullMode::PullUp || pull_mode
                    == GpioPullMode::PullUpDown {
                    1u32
                } else {
                    0u32
                })
                &&& c.pull_down_en == (if pull_mode == GpioPullMode::PullDown || pull_mode
                    == GpioPullMode::PullUpDown {
                    1u32
                } else {
                    0u32
                })
                &&& c.intr_type == intr_code(intr_type)
            },
    {
        if self.gpio_num < 0 || self.gpio_num >= 64 {
            return Err(GpioError::InvalidGpio);
        }
        let shift = self.gpio_num as u64;
        Ok(
            PinConfig {
                pin_bit_mask: 1u64 << shift,
                mode: convert_mode(mode),
                pull_up_en: match pull_mode {
                    GpioPullMode::PullUp | GpioPullMode::PullUpDown => 1,
                    _ => 0,
                },
                pull_down_en: match pull_mode {
                    GpioPullMode::PullDown | GpioPullMode::PullUpDown => 1,
                    _ => 0,
                },
                intr_type: convert_intr_type(intr_type),
            },
        )
    }

    /// The level a toggle drives after reading `current`: high after low,
    /// low after anything else.
    pub fn toggled_level(current: u32) -> (r: u32)
        ensures
            r == (if current == 0 {
                1u32
            } else {
                0u32
            }),
    {
        if current == 0 {
            1
        } else {
            0
        }
    }
}

/// System-wide pin controls (deep-sleep hold).
pub struct GpioControl;

/// Interrupt service of the pin driver.
pub struct GpioInterrupt;

/// Data handed to an interrupt handler, kept on the heap so that its address
/// stays fixed for as long as the handler is registered.
pub struct InterruptArg<T> {
    data: Box<T>,
}

impl<T> View for InterruptArg<T> {
    type V = T;

    closed spec fn view(&self) -> T {
        *self.data
    }
}

impl<T> InterruptArg<T> {
    /// Moves `data` to the heap.
    pub fn new(data: T) -> (r: Self)
        ensures
            r@ == data,
    {
        InterruptArg { data: Box::new(data) }
    }

    /// The data held.
    pub fn data(&self) -> (r: &T)
        ensures
            *r == self@,
    {
        &self.data
    }
}

} // verus!
