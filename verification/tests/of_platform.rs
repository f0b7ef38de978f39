use staros_drivers::of::base::{DeviceNode, OfTree};
use staros_drivers::of::irq::{of_phandle_cache_init, IrqDomains};
use staros_drivers::of::platform::{
    default_matches, of_platform_device_create, skipped_compatibles, OfDeviceId, PlatformError, Resource,
    ResourceType,
};

#[test]
fn test_platform_device_creation() {
    let tree = OfTree { nodes: vec![DeviceNode::new("uart")] };
    let cache = of_phandle_cache_init(&tree);
    let doms = IrqDomains::new();
    let dev = of_platform_device_create(&tree, &cache, &doms, 0, None).ok().unwrap();
    assert_eq!(dev.name, "uart");
    assert_eq!(dev.id, -1);
    assert_eq!(dev.of_node, Some(0));
    assert_eq!(dev.num_resources, 0);
    let named = of_platform_device_create(&tree, &cache, &doms, 0, Some("serial0")).ok().unwrap();
    assert_eq!(named.name, "serial0");
}

#[test]
fn test_resource_types() {
    assert_eq!(ResourceType::Mem, ResourceType::Mem);
    assert_ne!(ResourceType::Mem, ResourceType::Irq);
}

#[test]
fn test_skipped_compatibles() {
    assert!(skipped_compatibles().contains(&"operating-points-v2"));
}

#[test]
fn test_default_matches() {
    let matches = [OfDeviceId { compatible: "simple-bus".to_string() }];
    assert_eq!(matches[0].compatible, "simple-bus");
    assert_eq!(default_matches()[0], "simple-bus");
}

#[test]
fn test_platform_error_types() {
    assert_eq!(PlatformError::Invalid, PlatformError::Invalid);
    assert_ne!(PlatformError::Invalid, PlatformError::NoMemory);
}

#[test]
fn test_resource_range() {
    let res = Resource { name: "test".to_string(), start: 0x1000, end: 0x1FFF, res_type: ResourceType::Mem, flags: 0 };
    assert_eq!(res.end - res.start + 1, 0x1000);
}

#[test]
fn test_address_count_logic() {
    let reg_len = 24;
    let count = reg_len / 12;
    assert_eq!(count, 2);
}

#[test]
fn test_device_id_none() {
    let id = -1;
    assert_eq!(id, -1);
}

#[test]
fn test_address_count_variable_cells() {
    let na = 2;
    let ns = 1;
    let entry_size = (na + ns) * 4;
    assert_eq!(entry_size, 12);
    let na = 1;
    let ns = 1;
    let entry_size = (na + ns) * 4;
    assert_eq!(entry_size, 8);
    let na = 3;
    let ns = 2;
    let entry_size = (na + ns) * 4;
    assert_eq!(entry_size, 20);
}

#[test]
fn test_address_count_calculation() {
    let reg_len = 24;
    let na = 2;
    let ns = 1;
    let entry_size = (na + ns) * 4;
    let count = reg_len / entry_size;
    assert_eq!(count, 2);
    let reg_len = 24;
    let na = 1;
    let ns = 1;
    let entry_size = (na + ns) * 4;
    let count = reg_len / entry_size;
    assert_eq!(count, 3);
}
