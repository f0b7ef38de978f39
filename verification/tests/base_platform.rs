use staros_drivers::base::device::DeviceIds;
use staros_drivers::base::platform::{
    platform_add_devices, platform_device_add, platform_device_add_resources, platform_device_alloc,
    platform_device_register_full, platform_get_irq_optional, platform_get_mem_or_io, platform_get_resource,
    platform_get_resource_mut,
    platform_get_resource_byname, platform_irq_count, platform_match, PlatformDevice, PlatformDeviceId,
    PlatformDeviceInfo, PlatformDriver, PlatformError, PlatformIds, PLATFORM_DEVID_AUTO,
};
use staros_drivers::base::resource::{Resource, IORESOURCE_IO, IORESOURCE_IRQ, IORESOURCE_MEM};

fn pdev(name: &str, id: i32) -> PlatformDevice {
    let mut ids = DeviceIds::new();
    PlatformDevice::new(name.to_string(), id, &mut ids)
}

#[test]
fn test_platform_device_new() {
    let pdev = pdev("test-device", 0);
    assert_eq!(pdev.name(), "test-device");
    assert_eq!(pdev.id(), 0);
    assert_eq!(pdev.num_resources, 0);
}

#[test]
fn test_platform_device_alloc() {
    let mut ids = PlatformIds::new();
    let pdev = platform_device_alloc("test-device".to_string(), 0, &mut ids);
    assert!(pdev.is_some());
    let pdev = pdev.unwrap();
    assert_eq!(pdev.name(), "test-device");
    assert_eq!(pdev.platform_dma_mask, 0xFFFFFFFF);
}

#[test]
fn test_platform_device_add_resources() {
    let mut pdev = pdev("test-device", 0);
    let resources = vec![
        Resource::new(0x1000, 0x1FFF, IORESOURCE_MEM),
        Resource::new(0x2000, 0x2FFF, IORESOURCE_MEM),
        Resource::new(10, 10, IORESOURCE_IRQ),
    ];
    let result = platform_device_add_resources(&mut pdev, &resources);
    assert!(result.is_ok());
    assert_eq!(pdev.num_resources, 3);
}

#[test]
fn test_platform_get_resource() {
    let mut pdev = pdev("test-device", 0);
    let resources = vec![
        Resource::new(0x1000, 0x1FFF, IORESOURCE_MEM),
        Resource::new(0x2000, 0x2FFF, IORESOURCE_MEM),
        Resource::new(10, 10, IORESOURCE_IRQ),
    ];
    platform_device_add_resources(&mut pdev, &resources).unwrap();
    let res = platform_get_resource(&pdev, IORESOURCE_MEM, 0);
    assert!(res.is_some());
    assert_eq!(res.unwrap().start, 0x1000);
    let res = platform_get_resource(&pdev, IORESOURCE_MEM, 1);
    assert!(res.is_some());
    assert_eq!(res.unwrap().start, 0x2000);
    let res = platform_get_resource(&pdev, IORESOURCE_IRQ, 0);
    assert!(res.is_some());
    assert_eq!(res.unwrap().start, 10);
    let res = platform_get_resource(&pdev, IORESOURCE_MEM, 2);
    assert!(res.is_none());
}

#[test]
fn test_platform_get_mem_or_io() {
    let mut pdev = pdev("test-device", 0);
    let resources = vec![
        Resource::new(0x1000, 0x1FFF, IORESOURCE_MEM),
        Resource::new(10, 10, IORESOURCE_IRQ),
        Resource::new(0x2000, 0x2FFF, IORESOURCE_IO),
    ];
    platform_device_add_resources(&mut pdev, &resources).unwrap();
    let res = platform_get_mem_or_io(&pdev, 0);
    assert!(res.is_some());
    assert_eq!(res.unwrap().start, 0x1000);
    let res = platform_get_mem_or_io(&pdev, 1);
    assert!(res.is_some());
    assert_eq!(res.unwrap().start, 0x2000);
    let res = platform_get_mem_or_io(&pdev, 2);
    assert!(res.is_none());
}

#[test]
fn test_platform_get_resource_byname() {
    let mut pdev = pdev("test-device", 0);
    let mut res1 = Resource::new(0x1000, 0x1FFF, IORESOURCE_MEM);
    res1.name = Some("mem1");
    let mut res2 = Resource::new(0x2000, 0x2FFF, IORESOURCE_MEM);
    res2.name = Some("mem2");
    let resources = vec![res1, res2];
    platform_device_add_resources(&mut pdev, &resources).unwrap();
    let res = platform_get_resource_byname(&pdev, IORESOURCE_MEM, "mem1");
    assert!(res.is_some());
    assert_eq!(res.unwrap().start, 0x1000);
    let res = platform_get_resource_byname(&pdev, IORESOURCE_MEM, "mem2");
    assert!(res.is_some());
    assert_eq!(res.unwrap().start, 0x2000);
    let res = platform_get_resource_byname(&pdev, IORESOURCE_MEM, "mem3");
    assert!(res.is_none());
}

#[test]
fn test_platform_get_irq_optional() {
    let mut pdev = pdev("test-device", 0);
    let resources = vec![Resource::new(10, 10, IORESOURCE_IRQ), Resource::new(11, 11, IORESOURCE_IRQ)];
    platform_device_add_resources(&mut pdev, &resources).unwrap();
    let irq = platform_get_irq_optional(&pdev, 0);
    assert!(irq.is_ok());
    assert_eq!(irq.unwrap(), 10);
    let irq = platform_get_irq_optional(&pdev, 1);
    assert!(irq.is_ok());
    assert_eq!(irq.unwrap(), 11);
    let irq = platform_get_irq_optional(&pdev, 2);
    assert!(irq.is_err());
}

#[test]
fn test_platform_irq_count() {
    let mut pdev = pdev("test-device", 0);
    let resources = vec![
        Resource::new(10, 10, IORESOURCE_IRQ),
        Resource::new(11, 11, IORESOURCE_IRQ),
        Resource::new(12, 12, IORESOURCE_IRQ),
    ];
    platform_device_add_resources(&mut pdev, &resources).unwrap();
    let count = platform_irq_count(&pdev);
    assert!(count.is_ok());
    assert_eq!(count.unwrap(), 3);
}

#[test]
fn test_platform_device_auto_id() {
    let mut ids = PlatformIds::new();
    let mut pdev = PlatformDevice::new("test-device".to_string(), PLATFORM_DEVID_AUTO, &mut ids.devices);
    let result = platform_device_add(&mut pdev, &mut ids);
    assert!(result.is_ok());
    assert!(pdev.id_auto);
    assert!(pdev.id >= 0);
}

#[test]
fn test_platform_match() {
    let pdev = pdev("test-device", 0);
    let pdrv = PlatformDriver::new("test-device");
    assert!(platform_match(&pdev, &pdrv));
    let pdrv2 = PlatformDriver::new("other-device");
    assert!(!platform_match(&pdev, &pdrv2));
}

#[test]
fn test_platform_match_with_id_table() {
    let pdev = pdev("test-device", 0);
    let id_table = vec![PlatformDeviceId { name: "test-device", driver_data: 0 }];
    let mut pdrv = PlatformDriver::new("other-name");
    pdrv.id_table = Some(id_table);
    assert!(platform_match(&pdev, &pdrv));
}

#[test]
fn test_platform_driver_override() {
    let mut pdev = pdev("test-device", 0);
    pdev.driver_override = Some("specific-driver".to_string());
    let pdrv = PlatformDriver::new("specific-driver");
    assert!(platform_match(&pdev, &pdrv));
    let pdrv2 = PlatformDriver::new("other-driver");
    assert!(!platform_match(&pdev, &pdrv2));
}

#[test]
fn test_platform_add_devices() {
    let mut ids = PlatformIds::new();
    let pdev1 = PlatformDevice::new("device1".to_string(), 0, &mut ids.devices);
    let pdev2 = PlatformDevice::new("device2".to_string(), 1, &mut ids.devices);
    let mut devs = vec![pdev1, pdev2];
    let result = platform_add_devices(&mut devs, &mut ids);
    assert!(result.is_ok());
}

#[test]
fn test_platform_device_register_full() {
    let mut ids = PlatformIds::new();
    let resources = vec![Resource::new(0x1000, 0x1FFF, IORESOURCE_MEM)];
    let pdevinfo = PlatformDeviceInfo {
        parent: None,
        fwnode: None,
        name: "test-device".to_string(),
        id: 0,
        res: Some(resources),
        num_res: 1,
        data: None,
        size_data: 0,
        dma_mask: 0xFFFFFFFF,
        properties: None,
        of_node_reused: false,
    };
    let result = platform_device_register_full(&pdevinfo, &mut ids);
    assert!(result.is_ok());
    let pdev = result.ok().unwrap();
    assert_eq!(pdev.name(), "test-device");
    assert_eq!(pdev.num_resources, 1);
}

#[test]
fn auto_ids_are_handed_out_in_turn() {
    let mut ids = PlatformIds::new();
    let mut a = PlatformDevice::new("a".to_string(), PLATFORM_DEVID_AUTO, &mut ids.devices);
    let mut b = PlatformDevice::new("b".to_string(), PLATFORM_DEVID_AUTO, &mut ids.devices);
    platform_device_add(&mut a, &mut ids).unwrap();
    platform_device_add(&mut b, &mut ids).unwrap();
    assert_eq!(b.id, a.id + 1);
}

#[test]
fn missing_irq_is_not_found() {
    let pdev = pdev("test-device", 0);
    assert_eq!(platform_get_irq_optional(&pdev, 0), Err(PlatformError::NoDevice));
    let mut zero = pdev;
    platform_device_add_resources(&mut zero, &[Resource::new(0, 0, IORESOURCE_IRQ)]).unwrap();
    assert_eq!(platform_get_irq_optional(&zero, 0), Err(PlatformError::Invalid));
}

#[test]
fn test_platform_get_resource_mut_writes_through() {
    let mut pdev = pdev("test-device", 0);
    let resources = vec![
        Resource::new(0x1000, 0x1FFF, IORESOURCE_MEM),
        Resource::new(10, 10, IORESOURCE_IRQ),
        Resource::new(0x2000, 0x2FFF, IORESOURCE_MEM),
    ];
    platform_device_add_resources(&mut pdev, &resources).unwrap();
    {
        let r = platform_get_resource_mut(&mut pdev, IORESOURCE_MEM, 1).unwrap();
        assert_eq!(r.start, 0x2000);
        r.start = 0x3000;
    }
    assert_eq!(platform_get_resource(&pdev, IORESOURCE_MEM, 1).unwrap().start, 0x3000);
    assert_eq!(platform_get_resource(&pdev, IORESOURCE_MEM, 0).unwrap().start, 0x1000);
    assert!(platform_get_resource_mut(&mut pdev, IORESOURCE_IRQ, 1).is_none());
}
