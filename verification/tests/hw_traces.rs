use staros_drivers::gpio::{GpioDirection, GpioPin};
use staros_drivers::modem::{ModemDriver, MODEM_UART_BASE};
use staros_drivers::bluetooth::btusb::{self, BtUsbTable};
use staros_drivers::gpu::drm::drm_core::{DrmMode, DrmOps};
use staros_drivers::gpu::drm::msm_mdp::{msm_mdp_probe, MsmMdpOps, MsmMdpTable};
use staros_drivers::bluetooth::btqca::{self, BtQcaTable};
use staros_drivers::bluetooth::hci_uart::{self, HciUartTable};
use staros_drivers::clk::mmio::RegisterIo;
use staros_drivers::media::mipi_csi::{CamssOps, CsiOps, CsiSensorCfg};
use staros_drivers::wireless::mt76::{mt76_irq_handler, mt76_probe, Mt76Ops};
use staros_drivers::wireless::wcn36xx::{wcn36xx_irq_handler, wcn36xx_probe, Wcn36xxOps};
use staros_drivers::wireless::WirelessOps;

/// Registers with fixed read values per address (0 elsewhere) that log
/// every access: `(is_write, address, value)`.
struct Script {
    log: Vec<(bool, u64, u32)>,
    vals: Vec<(u64, u32)>,
}

impl RegisterIo for Script {
    fn read_reg(&mut self, addr: u64) -> u32 {
        let v = self.vals.iter().rev().find(|(a, _)| *a == addr).map(|(_, v)| *v).unwrap_or(0);
        self.log.push((false, addr, v));
        v
    }
    fn write_reg(&mut self, addr: u64, val: u32) {
        self.log.push((true, addr, val));
    }
}

fn script(vals: &[(u64, u32)]) -> Script {
    Script { log: Vec::new(), vals: vals.to_vec() }
}

fn writes(s: &Script) -> Vec<(u64, u32)> {
    s.log.iter().filter(|e| e.0).map(|e| (e.1, e.2)).collect()
}

#[test]
fn qca_baud_programs_divisor_latch() {
    let mut io = script(&[]);
    let d = btqca::uart_set_baud(&mut io, 0x1000, 115_200);
    assert_eq!(d, 26);
    assert_eq!(
        writes(&io),
        vec![(0x100C, 0x83), (0x1000, 26), (0x1004, 0), (0x100C, 0x03)]
    );
}

#[test]
fn qca_close_masks_and_resets() {
    let mut tbl = BtQcaTable::new();
    let idx = btqca::alloc_hw(&mut tbl, 0x4000, 115_200).unwrap();
    let mut io = script(&[]);
    btqca::btqca_close(&mut io, &mut tbl, idx);
    assert_eq!(writes(&io), vec![(0x4204, 0), (0x4100, 1)]);
    assert!(!tbl.hw[idx as usize].fw_ready);
}

#[test]
fn qca_tx_byte_waits_for_empty_holding_register() {
    let mut busy = script(&[(0x2014, 0)]);
    assert!(!btqca::uart_tx_byte(&mut busy, 0x2000, 0x5A));
    assert!(writes(&busy).is_empty());
    let mut ready = script(&[(0x2014, 0x20)]);
    assert!(btqca::uart_tx_byte(&mut ready, 0x2000, 0x5A));
    assert_eq!(writes(&ready), vec![(0x201C, 0x5A)]);
}

#[test]
fn qca_flush_stops_at_first_empty_status() {
    let mut tbl = BtQcaTable::new();
    let idx = btqca::alloc_hw(&mut tbl, 0x4000, 115_200).unwrap();
    let mut io = script(&[(0x4014, 0x20)]);
    assert!(btqca::btqca_flush(&mut io, &tbl, idx));
    assert_eq!(io.log.len(), 1);
    let mut stuck = script(&[]);
    assert!(!btqca::btqca_flush(&mut stuck, &tbl, idx));
    assert_eq!(stuck.log.len(), btqca::FLUSH_POLLS as usize);
}

#[test]
fn qca_irq_without_receive_reads_status_only() {
    let mut tbl = BtQcaTable::new();
    let idx = btqca::alloc_hw(&mut tbl, 0x4000, 115_200).unwrap();
    let mut io = script(&[(0x4200, 0)]);
    assert!(btqca::btqca_irq_handler(&mut io, &tbl, idx).is_none());
    assert_eq!(io.log, vec![(false, 0x4200, 0)]);
}

#[test]
fn qca_irq_with_receive_drains_and_acknowledges() {
    let mut tbl = BtQcaTable::new();
    let idx = btqca::alloc_hw(&mut tbl, 0x4000, 115_200).unwrap();
    // Data always ready, byte register 0x0E: the receiver is drained up to
    // the limit, then the interrupt is acknowledged.
    let mut io = script(&[(0x4200, 1), (0x4014, 1), (0x4020, 0x0E)]);
    let ev = btqca::btqca_irq_handler(&mut io, &tbl, idx).unwrap();
    assert_eq!(ev.len(), btqca::QCA_RX_MAX - 1);
    assert!(ev.iter().all(|b| *b == 0x0E));
    assert_eq!(*io.log.last().unwrap(), (true, 0x4208, 1));
}

#[test]
fn pl011_configure_and_close_write_in_order() {
    let mut tbl = HciUartTable::new();
    let idx = hci_uart::alloc_hw(&mut tbl, 0x9000, 115_200).unwrap();
    let mut io = script(&[]);
    let (ibrd, fbrd) = hci_uart::uart_configure(&mut io, &tbl, idx);
    assert_eq!((ibrd, fbrd), (26, 2));
    assert_eq!(
        writes(&io),
        vec![(0x9030, 0), (0x9024, 26), (0x9028, 2), (0x902C, 0x60), (0x9030, 0x301), (0x9038, 0x50)]
    );
    let mut io2 = script(&[]);
    hci_uart::hci_uart_close(&mut io2, &tbl, idx);
    assert_eq!(writes(&io2), vec![(0x9038, 0), (0x9030, 0)]);
}

#[test]
fn pl011_tx_byte_respects_full_fifo() {
    let mut tbl = HciUartTable::new();
    let idx = hci_uart::alloc_hw(&mut tbl, 0x9000, 115_200).unwrap();
    let mut full = script(&[(0x9018, 0x20)]);
    assert!(!hci_uart::uart_tx_byte(&mut full, &tbl, idx, 0x01));
    assert!(writes(&full).is_empty());
    let mut room = script(&[(0x9018, 0)]);
    assert!(hci_uart::uart_tx_byte(&mut room, &tbl, idx, 0x01));
    assert_eq!(writes(&room), vec![(0x9000, 0x01)]);
}

#[test]
fn mt76_tx_writes_length_then_words() {
    let mut ops = Mt76Ops::new(script(&[]));
    let dev = mt76_probe(&mut ops, 0x10_0000, [1, 2, 3, 4, 5, 6]).unwrap();
    ops.tx(&dev, &[1, 2, 3, 4, 5]).unwrap();
    assert_eq!(writes(&ops.io), vec![(0x10_1004, 5), (0x10_1000, 0x0403_0201), (0x10_1000, 5)]);
}

#[test]
fn mt76_scan_posts_command_when_mailbox_free() {
    let mut ops = Mt76Ops::new(script(&[(0x10_0508, 1)]));
    let dev = mt76_probe(&mut ops, 0x10_0000, [1, 2, 3, 4, 5, 6]).unwrap();
    ops.scan(&dev, None).unwrap();
    assert_eq!(ops.io.log, vec![(false, 0x10_0508, 1), (true, 0x10_0500, 1), (true, 0x10_0504, 0)]);
}

#[test]
fn mt76_irq_scan_done_reports_and_clears() {
    let src = 0x4000_0000u32;
    let mut ops = Mt76Ops::new(script(&[(0x10_0200, src), (0x10_0604, 0xC8)]));
    let mut dev = mt76_probe(&mut ops, 0x10_0000, [1, 2, 3, 4, 5, 6]).unwrap();
    mt76_irq_handler(&mut ops, &mut dev);
    assert_eq!(dev.scan_count, 1);
    assert_eq!(dev.scan_results[0].signal_dbm, -56);
    assert_eq!(
        ops.io.log,
        vec![(false, 0x10_0200, src), (false, 0x10_0604, 0xC8), (true, 0x10_0200, src)]
    );
}

#[test]
fn wcn36xx_irq_reads_channel_and_rssi() {
    let mut ops = Wcn36xxOps::new(script(&[(0x20_0080, 4), (0x20_0020, 6), (0x20_0060, 0xD0)]));
    let mut dev = wcn36xx_probe(&mut ops, 0x20_0000, [1, 2, 3, 4, 5, 6]).unwrap();
    wcn36xx_irq_handler(&mut ops, &mut dev);
    assert_eq!(dev.scan_count, 1);
    assert_eq!(dev.scan_results[0].channel.hw_value, 6);
    assert_eq!(dev.scan_results[0].signal_dbm, -48);
    assert_eq!(*ops.io.log.last().unwrap(), (true, 0x20_0088, 4));
}

#[test]
fn camss_vfe_enable_programs_frame_and_buffer() {
    let mut ops = CamssOps::new(script(&[]));
    let cfg = CsiSensorCfg::new_raw10_4lane(1920, 1080);
    ops.vfe_enable(1, &cfg, 0x8000_1000).unwrap();
    let base = 0x0ACE_0000u64 + 0x0002_0000;
    assert_eq!(
        writes(&ops.io),
        vec![(base, (1920 << 16) | 1080), (base + 0x200, 0x8000_1000), (base + 0x05C, 1), (base + 0x058, 1)]
    );
}

#[test]
fn gpio_direction_and_toggle_access_registers() {
    let mut io = script(&[(0x5000 + (4 << 3), 1)]);
    let mut pin = GpioPin::new(0x5000, 3);
    pin.set_direction(&mut io, GpioDirection::Output).unwrap();
    assert_eq!(io.log[..2], [(false, 0x5400, 0), (true, 0x5400, 0x8)]);
    pin.toggle(&mut io).unwrap();
    assert_eq!(io.log[2..], [(false, 0x5020, 1), (true, 0x5020, 0)]);
}

#[test]
fn modem_recv_byte_reads_data_only_when_ready() {
    let mut setup = script(&[]);
    let m = ModemDriver::new(&mut setup);
    let mut empty = script(&[(MODEM_UART_BASE + 0x7C, 0)]);
    assert_eq!(m.recv_byte(&mut empty), None);
    assert_eq!(empty.log.len(), 1);
    let mut full = script(&[(MODEM_UART_BASE + 0x7C, 1), (MODEM_UART_BASE, 0x141)]);
    assert_eq!(m.recv_byte(&mut full), Some(0x41));
    assert_eq!(full.log.len(), 2);
}

#[test]
fn btusb_acl_send_writes_length_then_words() {
    let mut tbl = BtUsbTable::new();
    let idx = btusb::alloc_hw(&mut tbl, 0x7000).unwrap();
    let mut io = script(&[]);
    btusb::btusb_send(&mut io, &tbl, idx, &[0x02, 1, 2, 3, 4, 5]).unwrap();
    assert_eq!(writes(&io), vec![(0x7034, 5), (0x7030, 0x0403_0201), (0x7030, 5)]);
}

#[test]
fn mdp5_mode_set_programs_timings() {
    let mut mdp = MsmMdpOps::new(MsmMdpTable::new(), script(&[]));
    let dev = msm_mdp_probe(&mut mdp, 0x1000).unwrap();
    let before = writes(&mdp.io).len();
    let mode = DrmMode::new_simple(1080, 2340, 60, 163_000);
    mdp.mode_set(dev.hw_idx, 0, &mode).unwrap();
    let w = writes(&mdp.io);
    assert_eq!(w.len(), before + 5);
    assert_eq!(w[before].0, 0x1404);
    assert_eq!(*w.last().unwrap(), (0x1400, 1));
}
