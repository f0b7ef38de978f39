use staros_drivers::of::irq::{IrqError, OfIrq, MAX_PHANDLE_ARGS};

#[test]
fn test_of_irq_new() {
    let irq = OfIrq::new();
    assert_eq!(irq.args_count, 0);
    assert!(irq.controller.is_none());
}

#[test]
fn test_max_phandle_args() {
    assert!(MAX_PHANDLE_ARGS >= 16);
}

#[test]
fn test_irq_error_types() {
    assert_eq!(IrqError::Invalid, IrqError::Invalid);
    assert_ne!(IrqError::Invalid, IrqError::NotFound);
}

#[test]
fn test_interrupt_parsing_logic() {
    let intsize = 3;
    let index = 0;
    let offset = index * intsize * 4;
    assert_eq!(offset, 0);
    let index = 1;
    let offset = index * intsize * 4;
    assert_eq!(offset, 12);
}

#[test]
fn test_interrupt_count_calculation() {
    let interrupts_len = 24;
    let intsize = 3;
    let total_cells = interrupts_len / 4;
    let count = total_cells / intsize;
    assert_eq!(count, 2);
}

#[test]
fn test_gic_interrupt_format() {
    let type_spi = 0u32;
    let number = 42u32;
    let flags = 4u32;
    assert_eq!(type_spi, 0);
    assert_eq!(number, 42);
    assert_eq!(flags, 4);
}

#[test]
fn test_interrupt_names_parsing() {
    let names = b"irq0\0irq1\0irq2\0";
    let mut count = 0;
    let mut offset = 0;
    while offset < names.len() {
        if let Some(pos) = names[offset..].iter().position(|&b| b == 0) {
            count += 1;
            offset += pos + 1;
        } else {
            break;
        }
    }
    assert_eq!(count, 3);
}

#[test]
fn test_irq_args_bounds() {
    let intsize = 3;
    assert!(intsize <= MAX_PHANDLE_ARGS);
}

#[test]
fn test_irq_offset_calculation() {
    let index = 2;
    let intsize = 3;
    let offset = index * intsize * 4;
    assert_eq!(offset, 24);
}
