use staros_drivers::base::bus::{
    bus_add_device, bus_add_driver, bus_is_registered, bus_register, bus_remove_device, bus_remove_driver,
    bus_unregister, BusCallbacks, BusError, BusRegistry, BusType, Device, DeviceDriver,
};

const TEST_BUS: BusType = BusType { name: "test-bus", has_match: true, has_probe: false, has_remove: false };

/// The test bus matches everything; probes succeed.
struct AlwaysMatch;

impl BusCallbacks for AlwaysMatch {
    fn bus_match(&self, _bus: &BusType, _dev: &Device, _drv: &DeviceDriver) -> bool {
        true
    }
    fn driver_probe(&self, _drv: &DeviceDriver, _dev: &Device) -> Result<(), BusError> {
        Ok(())
    }
    fn driver_remove(&self, _drv: &DeviceDriver, _dev: &Device) {}
}

#[test]
fn test_bus_register() {
    let mut reg = BusRegistry::new();
    let result = bus_register(&mut reg, TEST_BUS);
    assert!(result.is_ok());
    bus_unregister(&mut reg, "test-bus").unwrap();
}

#[test]
fn test_bus_is_registered() {
    let mut reg = BusRegistry::new();
    assert!(!bus_is_registered(&mut reg, &TEST_BUS));
    bus_register(&mut reg, TEST_BUS).unwrap();
    assert!(bus_is_registered(&mut reg, &TEST_BUS));
    bus_unregister(&mut reg, "test-bus").unwrap();
    assert!(!bus_is_registered(&mut reg, &TEST_BUS));
}

#[test]
fn test_bus_add_device() {
    let mut reg = BusRegistry::new();
    bus_register(&mut reg, TEST_BUS).unwrap();
    let mut dev = Device::new("test-device".into());
    dev.bus = Some(TEST_BUS);
    let d = reg.add_device_object(dev);
    let result = bus_add_device(&mut reg, d);
    assert!(result.is_ok());
    bus_remove_device(&mut reg, d, &AlwaysMatch).unwrap();
    bus_unregister(&mut reg, "test-bus").unwrap();
}

#[test]
fn test_bus_add_driver() {
    let mut reg = BusRegistry::new();
    bus_register(&mut reg, TEST_BUS).unwrap();
    let mut drv = DeviceDriver::new("test-driver");
    drv.bus = Some(TEST_BUS);
    drv.has_probe = true;
    let k = reg.add_driver_object(drv);
    let result = bus_add_driver(&mut reg, k, &AlwaysMatch);
    assert!(result.is_ok());
    bus_remove_driver(&mut reg, k, &AlwaysMatch).unwrap();
    bus_unregister(&mut reg, "test-bus").unwrap();
}

#[test]
fn test_device_driver_binding() {
    let mut reg = BusRegistry::new();
    bus_register(&mut reg, TEST_BUS).unwrap();
    let mut dev = Device::new("test-device".into());
    dev.bus = Some(TEST_BUS);
    let d = reg.add_device_object(dev);
    bus_add_device(&mut reg, d).unwrap();
    let mut drv = DeviceDriver::new("test-driver");
    drv.bus = Some(TEST_BUS);
    drv.has_probe = true;
    let k = reg.add_driver_object(drv);
    bus_add_driver(&mut reg, k, &AlwaysMatch).unwrap();
    assert_eq!(reg.devices[d].driver, Some(k));
    bus_remove_driver(&mut reg, k, &AlwaysMatch).unwrap();
    assert!(reg.devices[d].driver.is_none());
    bus_remove_device(&mut reg, d, &AlwaysMatch).unwrap();
    bus_unregister(&mut reg, "test-bus").unwrap();
}

#[test]
fn registering_a_bus_twice_is_busy() {
    let mut reg = BusRegistry::new();
    bus_register(&mut reg, TEST_BUS).unwrap();
    assert_eq!(bus_register(&mut reg, TEST_BUS), Err(BusError::Busy));
}
