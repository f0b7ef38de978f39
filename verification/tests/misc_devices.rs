use staros_drivers::clk::mmio::RegisterIo;
use staros_drivers::error::KernelError;
use staros_drivers::gpio::{GpioController, GpioDirection, GpioPin, GpioValue};
use staros_drivers::mock::{MockConfig, MockDevice, MockStreamDevice};
use staros_drivers::traits::{BasicDevice, DeviceError, PowerState, Streamable};

/// Registers as a map from address to value.
struct Regs {
    writes: Vec<(u64, u32)>,
    value: u32,
}

impl RegisterIo for Regs {
    fn read_reg(&mut self, _addr: u64) -> u32 {
        self.value
    }
    fn write_reg(&mut self, addr: u64, val: u32) {
        self.writes.push((addr, val));
    }
}

/// A sensor reading: a tenth of the sample number.
#[derive(Debug, Clone, Copy, PartialEq)]
struct MockSensorData {
    value: f32,
    timestamp: u64,
}

fn reading(n: u32) -> MockSensorData {
    MockSensorData { value: (n as f32) * 0.1, timestamp: n as u64 }
}

#[test]
fn test_gpio_pin() {
    let mut io = Regs { writes: Vec::new(), value: 0 };
    let mut pin = GpioPin::new(0x1000, 5);
    assert_eq!(pin.pin_number(), 5);
    assert_eq!(pin.direction(), GpioDirection::Input);
    pin.set_direction(&mut io, GpioDirection::Output).unwrap();
    assert_eq!(pin.direction(), GpioDirection::Output);
    assert_eq!(io.writes, vec![(0x1400, 1 << 5)]);
}

#[test]
fn test_gpio_value() {
    assert_eq!(GpioValue::Low as u32, 0);
    assert_eq!(GpioValue::High as u32, 1);
}

#[test]
fn test_gpio_controller() {
    let ctrl = GpioController::new(0x1000, 32);
    assert_eq!(ctrl.num_pins(), 32);
    let pin = ctrl.pin(5).ok().unwrap();
    assert_eq!(pin.pin_number(), 5);
    assert!(ctrl.pin(32).is_err());
}

#[test]
fn test_gpio_set_invalid() {
    let mut io = Regs { writes: Vec::new(), value: 0 };
    let pin = GpioPin::new(0x1000, 5);
    assert!(pin.set(&mut io, GpioValue::High).is_err());
    assert_eq!(pin.set(&mut io, GpioValue::High), Err(KernelError::InvalidParameter("Pin not configured as output")));
    assert!(io.writes.is_empty());
}

#[test]
fn gpio_output_writes_its_data_register() {
    let mut io = Regs { writes: Vec::new(), value: 1 };
    let mut pin = GpioPin::new(0x1000, 2);
    pin.set_direction(&mut io, GpioDirection::Output).unwrap();
    pin.set(&mut io, GpioValue::High).unwrap();
    assert_eq!(io.writes.last(), Some(&(0x1000 + (4 << 2), 1)));
    assert_eq!(pin.get(&mut io), GpioValue::High);
    pin.toggle(&mut io).unwrap();
    assert_eq!(io.writes.last(), Some(&(0x1000 + (4 << 2), 0)));
}

#[test]
fn test_mock_device_lifecycle() {
    let config = MockConfig::default();
    let mut device = MockDevice::new(config);
    assert!(device.init().is_ok());
    assert_eq!(device.power_state, PowerState::Active);
    assert!(device.shutdown().is_ok());
    assert_eq!(device.power_state, PowerState::Off);
}

#[test]
fn test_mock_device_failure() {
    let mut config = MockConfig::default();
    config.fail_init = true;
    let mut device = MockDevice::new(config);
    assert_eq!(device.init(), Err(DeviceError::HardwareFailure));
}

#[test]
fn test_mock_stream_device() {
    let config = MockConfig::default();
    let mut device = MockStreamDevice::new(config, 1000);
    device.init().unwrap();
    device.start_stream().unwrap();
    let data1 = reading(device.poll().unwrap().unwrap());
    let data2 = reading(device.poll().unwrap().unwrap());
    assert_eq!(data1.value, 0.0);
    assert_eq!(data2.value, 0.1);
    assert_eq!(data2.timestamp, 1);
    assert_eq!(device.sample_rate(), 1000);
}

#[test]
fn test_call_counting() {
    let config = MockConfig::default();
    let mut device = MockDevice::new(config);
    assert_eq!(device.call_count(), 0);
    device.init().unwrap();
    assert_eq!(device.call_count(), 1);
    device.power_save(PowerState::Suspend).unwrap();
    assert_eq!(device.call_count(), 2);
}

#[test]
fn stopped_stream_yields_nothing_and_needs_init() {
    let mut device = MockStreamDevice::new(MockConfig::default(), 10);
    assert_eq!(device.start_stream(), Err(DeviceError::NotInitialized));
    assert_eq!(device.poll(), Ok(None));
    let mut plain = MockDevice::new(MockConfig::default());
    assert_eq!(plain.power_save(PowerState::Idle), Err(DeviceError::NotInitialized));
}
