use staros_drivers::bus::{Bus, BusError, BusManager, BusScanResult, BusType};
use staros_drivers::bus_scanner::{BusScanner, HotplugHandler};
use staros_drivers::devicetree::{DeviceDiscovery, DeviceTree, FDT_MAGIC};
use staros_drivers::driver_manager::{Driver, DriverManager, ExtendedDeviceId, ID_ANY};
use staros_drivers::dt_integration::{DtDevice, DtEnumerator};
use staros_drivers::mock::{MockConfig, MockDevice};
use staros_drivers::of::fdt::FdtParser;
use staros_drivers::traits::{BasicDevice, DeviceError, DeviceId, DeviceRegistry, RegistryError};

struct MockBus {
    bus_type: BusType,
    devices: Vec<BusScanResult>,
}

impl Bus for MockBus {
    fn bus_type(&self) -> BusType {
        self.bus_type
    }
    fn scan(&mut self) -> Result<Vec<BusScanResult>, BusError> {
        Ok(self.devices.clone())
    }
    fn probe(&self, address: u64) -> bool {
        self.devices.iter().any(|d| d.address == address)
    }
    fn enable(&mut self) -> Result<(), BusError> {
        Ok(())
    }
    fn disable(&mut self) -> Result<(), BusError> {
        Ok(())
    }
}

#[test]
fn test_bus_type_display() {
    assert_eq!(BusType::I2C.as_str(), "I2C");
    assert_eq!(BusType::USB.as_str(), "USB");
}

#[test]
fn test_bus_manager_scan() {
    let mut manager = BusManager::new();
    let device_id = DeviceId::new(0x1000, 0x2000, 0);
    let mock_bus = MockBus {
        bus_type: BusType::I2C,
        devices: vec![BusScanResult { bus_type: BusType::I2C, device_id, address: 0x50 }],
    };
    manager.register_bus(mock_bus).unwrap();
    let results = manager.scan_all();
    assert_eq!(results.len(), 1);
    assert_eq!(results[0].device_id, device_id);
    assert_eq!(manager.bus_count(), 1);
}

#[test]
fn test_bus_scanner() {
    let scanner = BusScanner::new();
    assert_eq!(scanner.scan_count(), 0);
}

#[test]
fn rescan_counts_found_devices_and_scans() {
    let mut scanner = BusScanner::new();
    let id = DeviceId::new(1, 2, 0);
    let mut buses = vec![
        MockBus { bus_type: BusType::I2C, devices: vec![BusScanResult { bus_type: BusType::I2C, device_id: id, address: 1 }] },
        MockBus { bus_type: BusType::SPI, devices: vec![] },
    ];
    assert_eq!(scanner.rescan_all(&mut buses), Ok(1));
    assert_eq!(scanner.scan_count(), 1);
}

#[test]
fn test_hotplug_handler() {
    let mut handler = HotplugHandler::new();
    handler.enable();
    assert!(handler.enabled);
    handler.disable();
    assert!(!handler.enabled);
}

#[test]
fn hotplug_refuses_events_while_disabled() {
    let handler = HotplugHandler::new();
    let manager = DriverManager::new();
    let mut devs = vec![MockDevice::new(MockConfig::default())];
    assert_eq!(handler.device_removed(0, &manager, &mut devs), Err(DeviceError::NotSupported));
}

#[test]
fn test_device_discovery() {
    let discovery = DeviceDiscovery::new();
    assert!(discovery.uart_base().is_none());
    assert!(discovery.timer_freq().is_none());
}

#[test]
fn test_fdt_magic() {
    assert_eq!(FDT_MAGIC, 0xd00dfeed);
}

#[test]
fn device_tree_header_magic_is_checked() {
    let good = [0xd0, 0x0d, 0xfe, 0xed, 0, 0, 0x10, 0];
    let dt = DeviceTree::from_ptr(0x4000_0000, &good).ok().unwrap();
    assert_eq!(dt.base(), 0x4000_0000);
    assert_eq!(dt.size(), 0x1000);
    let bad = [0, 0, 0, 0, 0, 0, 0x10, 0];
    assert!(DeviceTree::from_ptr(0x4000_0000, &bad).is_err());
}

#[test]
fn test_extended_device_id_match() {
    let id1 = ExtendedDeviceId::new(0x1234, 0x5678);
    let id2 = ExtendedDeviceId::new(0x1234, 0x5678);
    assert!(id1.matches(&id2));
    let id3 = ExtendedDeviceId::new(0x1234, ID_ANY);
    assert!(id3.matches(&id1));
}

#[test]
fn test_extended_device_id_class_match() {
    let id1 = ExtendedDeviceId::with_class(0x1234, 0x5678, 0x030000, 0xFF0000);
    let id2 = ExtendedDeviceId::with_class(0x1234, 0x5678, 0x030100, 0xFF0000);
    assert!(id1.matches(&id2));
    let id3 = ExtendedDeviceId::with_class(0x1234, 0x5678, 0x040000, 0xFF0000);
    assert!(!id1.matches(&id3));
}

#[test]
fn test_driver_matching() {
    let driver = Driver::new("test_driver", BusType::PCI)
        .with_ids(vec![ExtendedDeviceId::new(0x1234, 0x5678), ExtendedDeviceId::new(0xABCD, 0xEF01)]);
    let id1 = ExtendedDeviceId::new(0x1234, 0x5678);
    assert!(driver.matches(&id1));
    let id2 = ExtendedDeviceId::new(0x9999, 0x8888);
    assert!(!driver.matches(&id2));
}

#[test]
fn test_driver_manager() {
    let mut manager = DriverManager::new();
    let mut devs: Vec<MockDevice> = Vec::new();
    let driver = Driver::new("test", BusType::I2C);
    assert!(manager.register_driver(driver, &mut devs).is_ok());
    assert_eq!(manager.driver_count(), 1);
}

#[test]
fn pending_device_is_probed_when_its_driver_arrives() {
    let mut manager = DriverManager::new();
    let mut devs = vec![MockDevice::new(MockConfig::default())];
    let id = ExtendedDeviceId::new(0x1234, 0x5678);
    manager.add_device(id, 0, &mut devs).unwrap();
    assert_eq!(manager.pending_count(), 1);
    assert!(!devs[0].initialized);
    let driver = Driver::new("drv", BusType::PCI).with_ids(vec![id]);
    manager.register_driver(driver, &mut devs).unwrap();
    assert_eq!(manager.pending_count(), 0);
    assert!(devs[0].initialized);
    assert_eq!(manager.list_drivers(), vec!["drv".to_string()]);
    manager.unregister_driver("drv").unwrap();
    assert_eq!(manager.driver_count(), 0);
}

#[test]
fn test_dt_device_creation() {
    let id = DeviceId::new(0x1234, 0x5678, 0);
    let device = DtDevice {
        id,
        name: String::from("test"),
        compatible: String::from("vendor,device"),
        reg: vec![(0x1000, 0x100)],
        interrupts: vec![42],
        initialized: false,
    };
    assert_eq!(device.mmio_base(), Some(0x1000));
    assert_eq!(device.mmio_size(), Some(0x100));
    assert_eq!(device.compatible(), "vendor,device");
    assert!(device.capabilities().can_block_io);
}

#[test]
fn dt_devices_register_once() {
    let parser = FdtParser { magic: 0xd00dfeed, nodes: Vec::new() };
    let mut registry = DeviceRegistry::new();
    let mut manager = DriverManager::new();
    let mut devs: Vec<DtDevice> = Vec::new();
    assert_eq!(DtEnumerator::register_all(&parser, &mut registry, &mut manager, &mut devs), Ok(1));
    assert_eq!(devs.len(), 1);
    assert_eq!(devs[0].name(), "platform-device");
    assert_eq!(manager.pending_count(), 1);
    assert_eq!(
        DtEnumerator::register_all(&parser, &mut registry, &mut manager, &mut devs),
        Err(DeviceError::HardwareFailure)
    );
    assert_eq!(devs.len(), 1);
}

#[test]
fn registry_refuses_a_second_registration() {
    let mut registry = DeviceRegistry::new();
    let id = DeviceId::new(1, 2, 3);
    assert_eq!(registry.register(id, 0), Ok(()));
    assert_eq!(registry.register(id, 1), Err(RegistryError::AlreadyRegistered));
}
