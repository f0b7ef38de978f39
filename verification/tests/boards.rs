use staros_drivers::audio::{self, volume_reg, AudioDevice, AudioError, AudioRoute};
use staros_drivers::clk::mmio::RegisterIo;
use staros_drivers::driver_manager::DriverManager;
use staros_drivers::examples::{example_hotplug, example_list_devices, example_register_sensor, example_use_device};
use staros_drivers::linux_compat::{example_list_drivers, example_system_init};
use staros_drivers::mock::{MockDevice, MockStreamDevice};
use staros_drivers::modem::{at_response_step, LineReader, LineStep, ModemDriver, ModemError};
use staros_drivers::pmic::{battery_level_of, battery_mv, cpu_voltage_sel, regulator_reg_bit, I2cDriver, I2cError, PmicDriver};
use staros_drivers::traits::{DeviceId, DeviceRegistry, RegistryError};

/// Registers that log writes and answer reads with a fixed value.
struct Regs {
    writes: Vec<(u64, u32)>,
    value: u32,
}

impl RegisterIo for Regs {
    fn read_reg(&mut self, _addr: u64) -> u32 {
        self.value
    }
    fn write_reg(&mut self, addr: u64, val: u32) {
        self.writes.push((addr, val));
    }
}

/// An I2C bus with one register file of 256 bytes.
struct Bus {
    regs: [u8; 256],
    writes: Vec<Vec<u8>>,
}

impl I2cDriver for Bus {
    fn write_read(&mut self, _addr: u8, reg: u8, buf: &mut Vec<u8>) -> Result<(), I2cError> {
        for (i, b) in buf.iter_mut().enumerate() {
            *b = self.regs[(reg as usize + i) % 256];
        }
        Ok(())
    }
    fn write(&mut self, _addr: u8, data: &[u8]) -> Result<(), I2cError> {
        self.writes.push(data.to_vec());
        if data.len() == 2 {
            self.regs[data[0] as usize] = data[1];
        }
        Ok(())
    }
}

#[test]
fn test_example_register() {
    let mut registry = DeviceRegistry::new();
    let mut devs: Vec<MockStreamDevice> = Vec::new();
    assert_eq!(example_register_sensor(&mut registry, &mut devs), Ok(()));
    assert_eq!(devs.len(), 1);
    assert_eq!(example_register_sensor(&mut registry, &mut devs), Err(RegistryError::AlreadyRegistered));
    assert_eq!(example_use_device(&registry, &mut devs), Some(0));
    assert!(devs[0].base.initialized);
    assert_eq!(example_list_devices(&registry), vec![DeviceId::new(0x1234, 0x5678, 0)]);
}

#[test]
fn hotplug_leaves_the_registry_as_it_was() {
    let mut registry = DeviceRegistry::new();
    let mut devs: Vec<MockDevice> = Vec::new();
    assert_eq!(example_hotplug(&mut registry, &mut devs), Ok(()));
    assert!(registry.entries.is_empty());
    assert_eq!(registry.unregister(DeviceId::new(1, 1, 1)), Err(RegistryError::NotFound));
}

#[test]
fn test_driver_registration() {
    let mut manager = DriverManager::new();
    let mut devs: Vec<MockDevice> = Vec::new();
    example_system_init(&mut manager, &mut devs);
    assert_eq!(manager.driver_count(), 4);
    assert_eq!(
        example_list_drivers(&manager),
        vec!["e1000_compat".to_string(), "usb_storage".to_string(), "bmp280_sensor".to_string(), "generic_qualcomm".to_string()]
    );
}

#[test]
fn pmic_conversions() {
    assert_eq!(battery_mv(0xFF, 0x0F), 7198);
    assert_eq!(battery_mv(0x00, 0x10), 0);
    assert_eq!(battery_level_of(2900), 0);
    assert_eq!(battery_level_of(3600), 50);
    assert_eq!(battery_level_of(4200), 100);
    assert_eq!(battery_level_of(5000), 100);
    assert_eq!(cpu_voltage_sel(700), 0);
    assert_eq!(cpu_voltage_sel(1000), 23);
    assert_eq!(cpu_voltage_sel(2000), 63);
    assert_eq!(regulator_reg_bit(2), Some((0x23, 0x04)));
    assert_eq!(regulator_reg_bit(5), Some((0x27, 0x02)));
    assert_eq!(regulator_reg_bit(12), None);
}

#[test]
fn pmic_reads_and_switches_regulators() {
    let mut bus = Bus { regs: [0; 256], writes: Vec::new() };
    bus.regs[0xA0] = 0x00;
    bus.regs[0xA1] = 0x08;
    let mut pmic = PmicDriver::new(0, 0x1C);
    pmic.init(&mut bus).unwrap();
    assert_eq!(bus.writes, vec![vec![0x23, 0x0F], vec![0x27, 0xFF]]);
    assert_eq!(pmic.read_battery_voltage(&mut bus), Ok(3600));
    pmic.disable_regulator(&mut bus, 1).unwrap();
    assert_eq!(bus.regs[0x23], 0x0D);
    pmic.enable_regulator(&mut bus, 1).unwrap();
    assert_eq!(bus.regs[0x23], 0x0F);
    pmic.set_cpu_voltage(&mut bus, 1000).unwrap();
    assert_eq!(bus.regs[0x2F], 23);
}

#[test]
fn audio_needs_init_and_scales_volume() {
    let mut io = Regs { writes: Vec::new(), value: 0 };
    let mut dev = AudioDevice::new();
    assert_eq!(dev.set_volume(&mut io, 50), Err(AudioError::NotInitialized));
    assert!(io.writes.is_empty());
    let mut dev = audio::init(&mut io).ok().unwrap();
    dev.set_route(&mut io, AudioRoute::Speaker).unwrap();
    assert_eq!(io.writes[io.writes.len() - 4], (0xFF3C_0000, (0x11 << 1) | 0x39));
    assert_eq!(io.writes[io.writes.len() - 2], (0xFF3C_0000, 0x02));
    assert_eq!(volume_reg(100), 255);
    assert_eq!(volume_reg(50), 127);
    assert_eq!(volume_reg(200), 255);
}

#[test]
fn at_responses_are_assembled_line_by_line() {
    let mut io = Regs { writes: Vec::new(), value: 0x20 };
    let mut modem = ModemDriver::new(&mut io);
    assert_eq!(modem.send_bytes(&mut io, b"x").err(), Some(ModemError::NotInitialized));
    modem.ready = true;
    let mut resp = modem.send_at_command(&mut io, "AT").ok().unwrap();
    assert_eq!(at_response_step(&mut resp, b""), Ok(false));
    assert_eq!(at_response_step(&mut resp, b"+CSQ: 20,99"), Ok(false));
    assert_eq!(at_response_step(&mut resp, b"OK"), Ok(true));
    assert_eq!(resp.as_str(), "+CSQ: 20,99\nOK");
    assert_eq!(at_response_step(&mut resp, &[0xFF]), Err(ModemError::UartError));
}

#[test]
fn line_reader_drops_carriage_returns() {
    let mut r = LineReader::new(8, 2);
    assert_eq!(r.feed(Some(b'O')), LineStep::More);
    assert_eq!(r.feed(Some(b'\r')), LineStep::More);
    assert_eq!(r.feed(None), LineStep::More);
    assert_eq!(r.feed(Some(b'K')), LineStep::More);
    assert_eq!(r.feed(Some(b'\n')), LineStep::Line(2));
    assert_eq!(r.buf, b"OK".to_vec());
    let mut t = LineReader::new(8, 1);
    assert_eq!(t.feed(None), LineStep::More);
    assert_eq!(t.feed(Some(b'a')), LineStep::TimedOut);
}
