use esp32_test::gpio::{
    convert_drive_cap, convert_intr_type, convert_mode, convert_pull_mode, GpioDriveCap,
    GpioError, GpioInterruptType, GpioMode, GpioPin, GpioPullMode, InterruptArg,
};
use esp32_test::spi::{SpiBitOrder, SpiBus, SpiDeviceConfig, SpiMode};

#[test]
fn gpio_codes() {
    assert_eq!(convert_mode(GpioMode::Output), 2);
    assert_eq!(convert_mode(GpioMode::InputOutputOpenDrain), 5);
    assert_eq!(convert_pull_mode(GpioPullMode::Floating), 0);
    assert_eq!(convert_pull_mode(GpioPullMode::PullUpDown), 3);
    assert_eq!(convert_intr_type(GpioInterruptType::LowLevel), 1);
    assert_eq!(convert_intr_type(GpioInterruptType::RisingEdge), 2);
    assert_eq!(convert_drive_cap(GpioDriveCap::Strongest), 3);
}

#[test]
fn pin_config_record() {
    let pin = GpioPin::new(40);
    assert_eq!(pin.get_pin_number(), 40);
    let c = pin
        .config(GpioMode::Output, GpioPullMode::PullUp, GpioInterruptType::AnyEdge)
        .unwrap();
    assert_eq!(c.pin_bit_mask, 1u64 << 40);
    assert_eq!(c.mode, 2);
    assert_eq!((c.pull_up_en, c.pull_down_en), (1, 0));
    assert_eq!(c.intr_type, 4);
    let bad = GpioPin::new(64).config(GpioMode::Input, GpioPullMode::Floating, GpioInterruptType::Disable);
    assert_eq!(bad, Err(GpioError::InvalidGpio));
}

#[test]
fn toggle_level() {
    assert_eq!(GpioPin::toggled_level(0), 1);
    assert_eq!(GpioPin::toggled_level(1), 0);
}

#[test]
fn interrupt_arg_keeps_data() {
    let arg = InterruptArg::new(17u32);
    assert_eq!(*arg.data(), 17);
}

#[test]
fn spi_conversions() {
    assert_eq!(u32::from(SpiMode::Mode3), 3);
    assert_eq!(u32::from(SpiMode::Mode0), 0);
    assert!(bool::from(SpiBitOrder::LSBFirst));
    assert!(!bool::from(SpiBitOrder::MSBFirst));
    assert_eq!(SpiBus::Spi2.host_id(), 2);
}

#[test]
fn default_device_config() {
    let c = SpiDeviceConfig::default();
    assert_eq!(c.clock_speed_hz, 1_000_000);
    assert_eq!(c.mode, SpiMode::Mode0);
    assert_eq!(c.bit_order, SpiBitOrder::MSBFirst);
    assert_eq!(c.cs_pin, None);
    assert_eq!(c.cs_io_num(), -1);
    assert_eq!(c.queue_size, 1);
    let with_cs = SpiDeviceConfig { cs_pin: Some(21), ..SpiDeviceConfig::default() };
    assert_eq!(with_cs.cs_io_num(), 21);
}
