use staros_drivers::of::base::{
    of_device_is_available, of_device_is_compatible, of_node_name_eq, of_node_name_prefix, of_property_read_u32,
    of_property_read_u64, DeviceNode, FdtError, Property,
};

fn node(name: &str, full: &str) -> DeviceNode {
    DeviceNode {
        name: name.to_string(),
        full_name: full.to_string(),
        phandle: 0,
        parent: None,
        children: Vec::new(),
        properties: Vec::new(),
    }
}

fn prop(name: &str, value: &[u8]) -> Property {
    Property { name: name.to_string(), value: value.to_vec() }
}

#[test]
fn test_of_node_name_eq() {
    let node = node("uart", "/soc/uart@fe001000");
    assert!(of_node_name_eq(Some(&node), "uart"));
    assert!(!of_node_name_eq(Some(&node), "i2c"));
}

#[test]
fn test_of_node_name_prefix() {
    let node = node("uart0", "/soc/uart0@fe001000");
    assert!(of_node_name_prefix(Some(&node), "uart"));
    assert!(!of_node_name_prefix(Some(&node), "i2c"));
}

#[test]
fn test_of_property_read_u32() {
    let mut n = DeviceNode::new("test");
    n.add_property(prop("reg", &[0x00, 0x00, 0x10, 0x00]));
    n.add_property(prop("short", &[0x01]));
    assert_eq!(of_property_read_u32(Some(&n), "reg"), Ok(0x1000));
    assert_eq!(of_property_read_u32(Some(&n), "short"), Err(FdtError::InvalidValue));
    assert_eq!(of_property_read_u32(Some(&n), "missing"), Err(FdtError::NotFound));
}

#[test]
fn test_of_property_read_u64() {
    let mut n = DeviceNode::new("test");
    n.add_property(prop("big", &[0, 0, 0, 1, 0, 0, 0, 2]));
    assert_eq!(of_property_read_u64(Some(&n), "big"), Ok(0x0000000100000002));
    assert!(of_property_read_u64(Some(&n), "missing").is_err());
}

#[test]
fn test_of_device_is_available_no_status() {
    let node = DeviceNode::new("test");
    assert!(of_device_is_available(Some(&node)));
}

#[test]
fn test_of_device_is_compatible() {
    let mut n = DeviceNode::new("test");
    n.add_property(prop("compatible", b"vendor,a\0vendor,b\0"));
    let first = of_device_is_compatible(Some(&n), "vendor,a");
    let second = of_device_is_compatible(Some(&n), "vendor,b");
    assert!(first > 0);
    assert!(second > 0);
    assert!(first > second);
    assert_eq!(of_device_is_compatible(Some(&n), "vendor,c"), 0);
}

#[test]
fn test_property_value_parsing() {
    let value = [0x00, 0x00, 0x00, 0x42];
    let num = u32::from_be_bytes(value);
    assert_eq!(num, 66);
}

#[test]
fn test_compatible_string_parsing() {
    let compatible = b"vendor,device1\0vendor,device2\0";
    let mut offset = 0;
    let mut count = 0;
    while offset < compatible.len() {
        let end = compatible[offset..]
            .iter()
            .position(|&b| b == 0)
            .map(|p| offset + p)
            .unwrap_or(compatible.len());
        if end > offset {
            count += 1;
        }
        offset = end + 1;
    }
    assert_eq!(count, 2);
}

#[test]
fn disabled_node_is_not_available() {
    let mut n = DeviceNode::new("test");
    n.add_property(prop("status", b"disabled\0"));
    assert!(!of_device_is_available(Some(&n)));
    let mut m = DeviceNode::new("test");
    m.add_property(prop("status", b"okay\0"));
    assert!(of_device_is_available(Some(&m)));
    assert!(!of_device_is_available(None));
}
