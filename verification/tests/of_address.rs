use staros_drivers::of::address::{of_read_number, write_number, AddrError, OF_BAD_ADDR, OF_MAX_ADDR_CELLS};

#[test]
fn test_of_read_number() {
    let cells = [0x00, 0x00, 0x00, 0x01, 0x00, 0x00, 0x00, 0x02];
    let val = of_read_number(&cells, 2);
    assert_eq!(val, 0x0000000100000002);
}

#[test]
fn test_of_read_number_single() {
    let cells = [0x00, 0x00, 0x10, 0x00];
    let val = of_read_number(&cells, 1);
    assert_eq!(val, 0x1000);
}

#[test]
fn test_bad_addr_constant() {
    assert_eq!(OF_BAD_ADDR, u64::MAX);
}

#[test]
fn test_addr_error_types() {
    assert_eq!(AddrError::Invalid, AddrError::Invalid);
    assert_ne!(AddrError::Invalid, AddrError::NoParent);
}

#[test]
fn test_cell_size_calculation() {
    let na = 2;
    let ns = 1;
    let onesize = (na + ns) * 4;
    assert_eq!(onesize, 12);
}

#[test]
fn test_address_bounds_check() {
    let reg_len = 24; // 2 entries
    let onesize = 12;
    let index = 1;
    assert!(reg_len >= (index + 1) * onesize);
}

#[test]
fn test_max_addr_cells() {
    assert!(OF_MAX_ADDR_CELLS >= 4);
}

#[test]
fn test_write_number_single_cell() {
    let mut addr = [0u8; 8];
    write_number(&mut addr, 0x12345678, 1);
    assert_eq!(addr[0..4], [0x12, 0x34, 0x56, 0x78]);
}

#[test]
fn test_write_number_two_cells() {
    let mut addr = [0u8; 8];
    write_number(&mut addr, 0x0000000100000002, 2);
    assert_eq!(addr[0..4], [0x00, 0x00, 0x00, 0x01]);
    assert_eq!(addr[4..8], [0x00, 0x00, 0x00, 0x02]);
}

#[test]
fn test_ranges_parsing_logic() {
    let na = 1;
    let pna = 1;
    let ns = 1;
    let rone = na + pna + ns;
    assert_eq!(rone, 3);
    let child_addr = 0x1000u64;
    let parent_addr = 0x80000000u64;
    let size = 0x1000u64;
    let test_addr = 0x1500u64;
    assert!(test_addr >= child_addr);
    assert!(test_addr < child_addr + size);
    let offset = test_addr - child_addr;
    let translated = parent_addr + offset;
    assert_eq!(translated, 0x80000500);
}

#[test]
fn test_ranges_boundary_check() {
    let child_base = 0x1000u64;
    let size = 0x1000u64;
    assert!(child_base >= child_base);
    assert!(child_base < child_base + size);
    let end = child_base + size;
    assert!(end >= child_base + size);
    let last = child_base + size - 1;
    assert!(last < child_base + size);
}

#[test]
fn test_multi_range_search() {
    let ranges = [
        (0x0000u64, 0x80000000u64, 0x1000u64),
        (0x1000u64, 0x90000000u64, 0x1000u64),
        (0x2000u64, 0xA0000000u64, 0x1000u64),
    ];
    let test_addr = 0x1500u64;
    let mut found = None;
    for (child, parent, size) in ranges.iter() {
        if test_addr >= *child && test_addr < child + size {
            let offset = test_addr - child;
            found = Some(parent + offset);
            break;
        }
    }
    assert_eq!(found, Some(0x90000500));
}

#[test]
fn read_number_of_three_cells_keeps_low_64_bits() {
    let cells = [0, 0, 0, 7, 0, 0, 0, 1, 0, 0, 0, 2];
    assert_eq!(of_read_number(&cells, 3), 0x0000000100000002);
}

#[test]
fn read_number_past_the_cells_stops() {
    let cells = [0, 0, 0, 5];
    assert_eq!(of_read_number(&cells, 2), 5);
    assert_eq!(of_read_number(&cells, 0), 0);
}
