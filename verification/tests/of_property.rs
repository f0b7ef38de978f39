use staros_drivers::of::base::{DeviceNode, Property};
use staros_drivers::of::property::{
    of_property_count_elems_of_size, of_property_match_string, of_property_read_bool, of_property_read_u32_index,
    PropError,
};

fn node_with(props: Vec<(&str, &[u8])>) -> DeviceNode {
    let mut n = DeviceNode::new("test");
    for (name, value) in props {
        n.add_property(Property { name: name.to_string(), value: value.to_vec() });
    }
    n
}

#[test]
fn test_of_property_read_bool() {
    let n = node_with(vec![("dma-coherent", &[])]);
    assert!(of_property_read_bool(Some(&n), "dma-coherent"));
    assert!(!of_property_read_bool(Some(&n), "missing"));
}

#[test]
fn test_of_property_count_elems() {
    let elem_size = 4;
    let data_len = 16;
    assert_eq!(data_len / elem_size, 4);
    let n = node_with(vec![("cells", &[0u8; 16]), ("odd", &[0u8; 13]), ("empty", &[])]);
    assert_eq!(of_property_count_elems_of_size(Some(&n), "cells", 4), Ok(4));
    assert_eq!(of_property_count_elems_of_size(Some(&n), "odd", 4), Err(PropError::Invalid));
    assert_eq!(of_property_count_elems_of_size(Some(&n), "empty", 4), Err(PropError::NoData));
    assert_eq!(of_property_count_elems_of_size(Some(&n), "missing", 4), Err(PropError::Invalid));
}

#[test]
fn test_u32_array_parsing() {
    let data = [0x00, 0x00, 0x00, 0x01, 0x00, 0x00, 0x00, 0x02];
    let v1 = u32::from_be_bytes([data[0], data[1], data[2], data[3]]);
    let v2 = u32::from_be_bytes([data[4], data[5], data[6], data[7]]);
    assert_eq!(v1, 1);
    assert_eq!(v2, 2);
    let n = node_with(vec![("arr", &data)]);
    assert_eq!(of_property_read_u32_index(Some(&n), "arr", 1), Ok(2));
    assert_eq!(of_property_read_u32_index(Some(&n), "arr", 2), Err(PropError::Overflow));
}

#[test]
fn test_u64_parsing() {
    let data = [0x00, 0x00, 0x00, 0x00, 0x00, 0x00, 0x00, 0x42];
    let v = u64::from_be_bytes(data);
    assert_eq!(v, 66);
}

#[test]
fn test_string_list_parsing() {
    let data = b"string1\0string2\0string3\0";
    let mut offset = 0;
    let mut count = 0;
    while offset < data.len() {
        if let Some(pos) = data[offset..].iter().position(|&b| b == 0) {
            count += 1;
            offset += pos + 1;
        } else {
            break;
        }
    }
    assert_eq!(count, 3);
    let n = node_with(vec![("names", data)]);
    assert_eq!(of_property_match_string(Some(&n), "names", "string2"), Ok(1));
    assert_eq!(of_property_match_string(Some(&n), "names", "nope"), Err(PropError::NoData));
}

#[test]
fn test_prop_error_types() {
    assert_eq!(PropError::Invalid, PropError::Invalid);
    assert_ne!(PropError::Invalid, PropError::NoData);
}

#[test]
fn test_property_size_validation() {
    let value_len = 12;
    let elem_size = 4;
    assert_eq!(value_len % elem_size, 0);
    let value_len = 13;
    assert_ne!(value_len % elem_size, 0);
}

#[test]
fn test_index_bounds() {
    let array_len = 16;
    let elem_size = 4;
    let index = 2;
    let required = (index + 1) * elem_size;
    assert!(required <= array_len);
}

#[test]
fn test_string_null_termination() {
    let data = b"hello\0";
    let null_pos = data.iter().position(|&b| b == 0);
    assert_eq!(null_pos, Some(5));
}
