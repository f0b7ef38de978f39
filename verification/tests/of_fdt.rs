use staros_drivers::of::base::{FdtError, Property};
use staros_drivers::of::fdt::{
    fdt_node_name, of_fdt_device_is_available, of_fdt_unflatten_tree, FdtNodeEntry, FdtParser, FDT_MAGIC,
    FDT_MAX_DEPTH,
};

fn entry(path: &str, depth: usize, props: Vec<(&str, &[u8])>) -> FdtNodeEntry {
    FdtNodeEntry {
        path: path.to_string(),
        depth,
        properties: props.into_iter().map(|(n, v)| Property { name: n.to_string(), value: v.to_vec() }).collect(),
    }
}

fn parser() -> FdtParser {
    FdtParser {
        magic: FDT_MAGIC,
        nodes: vec![
            entry("/", 0, vec![]),
            entry("/soc", 1, vec![]),
            entry("/soc/uart@fe001000", 2, vec![("status", b"okay\0")]),
            entry("/soc/i2c@fe002000", 2, vec![("status", b"disabled\0")]),
        ],
    }
}

#[test]
fn test_of_fdt_device_is_available_no_status() {
    assert!(of_fdt_device_is_available(&parser(), "/soc"));
}

#[test]
fn test_of_fdt_device_is_available_okay() {
    assert!(of_fdt_device_is_available(&parser(), "/soc/uart@fe001000"));
}

#[test]
fn test_of_fdt_device_is_available_disabled() {
    assert!(!of_fdt_device_is_available(&parser(), "/soc/i2c@fe002000"));
}

#[test]
fn test_populate_properties_name_extraction() {
    let nodename = "uart@fe001000";
    let name = if let Some(at_pos) = nodename.rfind('@') { &nodename[..at_pos] } else { nodename };
    assert_eq!(name, "uart");
    assert_eq!(fdt_node_name(nodename.as_bytes()), b"uart");
    assert_eq!(fdt_node_name(b"/soc/uart@fe001000"), b"uart");
}

#[test]
fn test_fdt_error_types() {
    let err = FdtError::InvalidHeader;
    assert_eq!(err, FdtError::InvalidHeader);
    let err2 = FdtError::NotFound;
    assert_ne!(err, err2);
}

#[test]
fn test_unflatten_device_tree_invalid_fdt() {
    let mut p = parser();
    p.magic = 0x1234_5678;
    assert_eq!(of_fdt_unflatten_tree(&p).err(), Some(FdtError::InvalidHeader));
}

#[test]
fn test_phandle_parsing() {
    let value = [0x00, 0x00, 0x00, 0x42];
    let phandle = u32::from_be_bytes(value);
    assert_eq!(phandle, 66);
}

#[test]
fn test_max_depth_check() {
    assert!(FDT_MAX_DEPTH >= 32);
    assert!(FDT_MAX_DEPTH <= 128);
}

#[test]
fn unflatten_leaves_out_disabled_nodes() {
    let u = of_fdt_unflatten_tree(&parser()).ok().unwrap();
    assert_eq!(u.tree.nodes.len(), 3);
    assert!(u.tree.nodes[u.root].parent.is_none());
    assert!(u.tree.nodes.iter().any(|n| n.name == "uart"));
    assert!(!u.tree.nodes.iter().any(|n| n.name == "i2c"));
}

#[test]
fn unflatten_refuses_a_too_deep_tree() {
    let p = FdtParser { magic: FDT_MAGIC, nodes: vec![entry("/", 0, vec![]), entry("/deep", FDT_MAX_DEPTH - 1, vec![])] };
    assert_eq!(of_fdt_unflatten_tree(&p).err(), Some(FdtError::InvalidData));
}

#[test]
fn unflatten_links_parents_and_children_in_order() {
    let u = of_fdt_unflatten_tree(&parser()).ok().unwrap();
    assert_eq!(u.root, 0);
    assert_eq!(u.tree.nodes[1].parent, Some(0));
    assert_eq!(u.tree.nodes[2].parent, Some(1));
    assert_eq!(u.tree.nodes[0].children, vec![1]);
    assert_eq!(u.tree.nodes[1].children, vec![2]);
    assert!(u.tree.nodes[2].children.is_empty());
    assert_eq!(u.tree.nodes[2].full_name, "uart@fe001000");
}

#[test]
fn unflatten_without_top_level_node_is_not_found() {
    let p = FdtParser {
        magic: FDT_MAGIC,
        nodes: vec![entry("/", 0, vec![("status", b"disabled\0")]), entry("/soc", 1, vec![])],
    };
    assert_eq!(of_fdt_unflatten_tree(&p).err(), Some(FdtError::NotFound));
}

#[test]
fn unflatten_with_nothing_available_is_invalid() {
    let p = FdtParser { magic: FDT_MAGIC, nodes: vec![entry("/", 0, vec![("status", b"disabled\0")])] };
    assert_eq!(of_fdt_unflatten_tree(&p).err(), Some(FdtError::InvalidData));
}
