use staros_drivers::base::device::{get_device, put_device, DeviceCore, DeviceIds};
use staros_drivers::base::resource::{Resource, IORESOURCE_IRQ, IORESOURCE_MEM};
use staros_drivers::base::driver::DriverCore;

#[test]
fn test_device_create() {
    let mut ids = DeviceIds::new();
    let dev = DeviceCore::new("test-device".into(), &mut ids);
    assert_eq!(dev.name(), "test-device");
    assert!(dev.id() > 0);
}

#[test]
fn test_device_resources() {
    let mut ids = DeviceIds::new();
    let mut dev = DeviceCore::new("test-device".into(), &mut ids);
    let mmio = Resource::new(0x1000, 0x1FFF, IORESOURCE_MEM);
    dev.add_resource(mmio);
    let irq = Resource::new(42, 42, IORESOURCE_IRQ);
    dev.add_resource(irq);
    assert_eq!(dev.num_resources(), 2);
    assert!(dev.get_resource(0).is_some());
    assert!(dev.get_resource(1).is_some());
    let mmio_res = dev.get_resource_by_type(IORESOURCE_MEM, 0);
    assert!(mmio_res.is_some());
    assert_eq!(mmio_res.unwrap().start, 0x1000);
    let irq_res = dev.get_resource_by_type(IORESOURCE_IRQ, 0);
    assert!(irq_res.is_some());
    assert_eq!(irq_res.unwrap().start, 42);
    assert!(dev.get_resource_by_type(IORESOURCE_IRQ, 1).is_none());
}

#[test]
fn test_device_refcount() {
    let mut ids = DeviceIds::new();
    let mut dev = DeviceCore::new("test-device".into(), &mut ids);
    assert_eq!(dev.refcount(), 1);
    get_device(&mut dev);
    assert_eq!(dev.refcount(), 2);
    put_device(&mut dev);
    assert_eq!(dev.refcount(), 1);
}

#[test]
fn device_ids_count_up() {
    let mut ids = DeviceIds::new();
    let a = DeviceCore::new("a".into(), &mut ids);
    let b = DeviceCore::new("b".into(), &mut ids);
    assert_eq!(b.id(), a.id() + 1);
}

#[test]
fn test_driver_create() {
    let drv = DriverCore::new("test-driver");
    assert_eq!(drv.name(), "test-driver");
    assert_eq!(drv.num_devices(), 0);
}

use staros_drivers::base::device::{device_is_registered, device_register, device_unregister};
use staros_drivers::base::driver::{driver_find_device, driver_for_each_device, DeviceCoreVisitor, DeviceMatcher, DriverError};

#[test]
fn test_device_register() {
    let mut ids = DeviceIds::new();
    let mut dev = DeviceCore::new("test-device".into(), &mut ids);
    let result = device_register(&mut dev);
    assert!(result.is_ok());
    device_unregister(&mut dev).unwrap();
}

#[test]
fn test_device_parent() {
    let mut ids = DeviceIds::new();
    let parent = DeviceCore::new("parent".into(), &mut ids);
    let mut child = DeviceCore::new("child".into(), &mut ids);
    child.set_parent(parent.id());
    assert_eq!(child.parent(), Some(parent.id()));
}

#[test]
fn test_device_is_registered() {
    let mut ids = DeviceIds::new();
    let dev = DeviceCore::new("test".into(), &mut ids);
    assert!(device_is_registered(&dev));
}

#[test]
fn test_driver_devices() {
    let mut drv = DriverCore::new("test-driver");
    drv.add_device(0);
    drv.add_device(1);
    assert_eq!(drv.num_devices(), 2);
    drv.remove_device(0);
    assert_eq!(drv.num_devices(), 1);
    assert_eq!(drv.devices(), &[1]);
}

struct Counter {
    count: usize,
}

impl DeviceCoreVisitor for Counter {
    fn visit(&mut self, _dev: &DeviceCore) -> Result<(), DriverError> {
        self.count += 1;
        Ok(())
    }
}

#[test]
fn test_driver_for_each_device() {
    let mut ids = DeviceIds::new();
    let devs = vec![DeviceCore::new("test-dev".into(), &mut ids)];
    let mut drv = DriverCore::new("test-driver");
    drv.add_device(0);
    let mut counter = Counter { count: 0 };
    let result = driver_for_each_device(&drv, &devs, &mut counter);
    assert!(result.is_ok());
    assert_eq!(counter.count, 1);
}

struct ByName(&'static str);

impl DeviceMatcher for ByName {
    fn matches(&mut self, dev: &DeviceCore) -> bool {
        dev.name() == self.0
    }
}

#[test]
fn test_driver_find_device() {
    let mut ids = DeviceIds::new();
    let devs = vec![DeviceCore::new("other".into(), &mut ids), DeviceCore::new("target".into(), &mut ids)];
    let mut drv = DriverCore::new("test-driver");
    drv.add_device(0);
    drv.add_device(1);
    let found = driver_find_device(&drv, &devs, &mut ByName("target"));
    assert!(found.is_some());
    assert_eq!(found.unwrap(), 1);
}
