use staros_drivers::clk::mmio::RegisterIo;
use staros_drivers::error::{DeviceError, KernelError};
use staros_drivers::wireless::ath10k::{ath10k_irq_handler, ath10k_probe, Ath10kOps};
use staros_drivers::wireless::brcmfmac::{brcmfmac_probe, BrcmfOps};
use staros_drivers::wireless::chip::{chan_to_freq, freq_to_chan, le_word_of};
use staros_drivers::wireless::mt76::{mt76_probe, Mt76Ops};
use staros_drivers::wireless::wcn36xx::{wcn36xx_probe, Wcn36xxOps};
use staros_drivers::wireless::{
    register_wireless_dev, wireless_dev_count, ScanResult, WifiDriverState, WirelessDev, WirelessDevIdx,
    WirelessDevTable, WirelessOps,
};

/// Registers that log writes and answer every read with `value`.
struct Regs {
    writes: Vec<(u64, u32)>,
    value: u32,
}

impl RegisterIo for Regs {
    fn read_reg(&mut self, _addr: u64) -> u32 {
        self.value
    }
    fn write_reg(&mut self, addr: u64, val: u32) {
        self.writes.push((addr, val));
    }
}

fn regs(value: u32) -> Regs {
    Regs { writes: Vec::new(), value }
}

#[test]
fn scan_result_helpers() {
    let mut r = ScanResult::empty();
    assert!(!r.valid);
    assert_eq!(r.signal_dbm, -100);
    r.ssid[..4].copy_from_slice(b"home");
    r.ssid_len = 4;
    assert_eq!(r.ssid_str(), "home");
    r.ssid[0] = 0xFF;
    assert_eq!(r.ssid_str(), "");
    r.capability = 0x0010;
    assert!(r.has_privacy());
}

#[test]
fn channel_numbering() {
    assert_eq!(chan_to_freq(1), 2412);
    assert_eq!(chan_to_freq(14), 2484);
    assert_eq!(chan_to_freq(36), 5180);
    assert_eq!(freq_to_chan(2437), 6);
    assert_eq!(freq_to_chan(2484), 14);
    assert_eq!(freq_to_chan(5180), 36);
    assert_eq!(freq_to_chan(3000), 0);
    assert_eq!(le_word_of(1, 2, 3, 4), 0x04030201);
}

#[test]
fn device_table_fills_up() {
    let mut tbl = WirelessDevTable::new();
    for i in 0..8u8 {
        assert_eq!(register_wireless_dev(&mut tbl, WirelessDev::new(i, [0; 6])).ok(), Some(WirelessDevIdx(i)));
    }
    assert_eq!(wireless_dev_count(&tbl), 8);
    assert_eq!(register_wireless_dev(&mut tbl, WirelessDev::new(9, [0; 6])).err(), Some(KernelError::ResourceExhausted));
}

#[test]
fn device_life_cycle_on_ath10k() {
    let mut ops = Ath10kOps::new(regs(0x1));
    let mut dev = ath10k_probe(&mut ops, 0x0006_0000, [1, 2, 3, 4, 5, 6]).ok().unwrap();
    assert_eq!(dev.hw_idx, 0);
    assert_eq!(dev.get_state(), WifiDriverState::Uninitialized);
    assert_eq!(dev.scan(&mut ops, None), Err(KernelError::Device(DeviceError::NotInitialized)));
    dev.init(&mut ops).unwrap();
    assert!(ops.table[0].fw_ready);
    assert_eq!(dev.get_state(), WifiDriverState::Initialized);
    dev.scan(&mut ops, None).unwrap();
    assert_eq!(dev.get_state(), WifiDriverState::Scanning);
    dev.tx(&mut ops, &[1, 2, 3, 4, 5]).unwrap();
    assert_eq!(dev.tx_packets, 1);
    assert_eq!(dev.tx_bytes, 5);
    dev.disconnect(&mut ops, 3);
    assert_eq!(dev.get_state(), WifiDriverState::Initialized);
    ops.set_tx_power(&dev, 10).unwrap();
    assert_eq!(ops.table[0].tx_power_dbm, 10);
}

#[test]
fn ath10k_scan_done_adds_a_result() {
    let mut ops = Ath10kOps::new(regs(0x8 | 0x6));
    let mut dev = ath10k_probe(&mut ops, 0x0006_0000, [0; 6]).ok().unwrap();
    ath10k_irq_handler(&mut ops, &mut dev);
    assert_eq!(dev.scan_count, 1);
    assert!(dev.scan_results[0].valid);
    assert_eq!(dev.scan_results[0].channel.center_freq, chan_to_freq(0x0E));
}

#[test]
fn probes_take_slots_in_turn() {
    let mut w = Wcn36xxOps::new(regs(0));
    let mut m = Mt76Ops::new(regs(0));
    let mut b = BrcmfOps::new(regs(0));
    for i in 0..4u8 {
        assert_eq!(wcn36xx_probe(&mut w, 0x1000, [0; 6]).ok().unwrap().hw_idx, i);
        assert_eq!(mt76_probe(&mut m, 0x2000, [0; 6]).ok().unwrap().hw_idx, i);
        assert_eq!(brcmfmac_probe(&mut b, 0x3000, [0; 6]).ok().unwrap().hw_idx, i);
    }
    assert_eq!(wcn36xx_probe(&mut w, 0x1000, [0; 6]).err(), Some(KernelError::ResourceExhausted));
}

#[test]
fn wcn36xx_refuses_oversized_frames() {
    let mut ops = Wcn36xxOps::new(regs(1));
    let dev = wcn36xx_probe(&mut ops, 0x0320_4000, [0; 6]).ok().unwrap();
    let big = vec![0u8; 2305];
    assert_eq!(ops.tx(&dev, &big), Err(KernelError::InvalidParameter("frame too large")));
    assert_eq!(ops.tx(&dev, &big[..2304]), Ok(()));
}

#[test]
fn mailbox_commands_time_out_when_busy() {
    let mut ops = Mt76Ops::new(regs(0));
    let dev = mt76_probe(&mut ops, 0x1800_0000, [0; 6]).ok().unwrap();
    assert_eq!(ops.scan(&dev, None), Err(KernelError::Timeout));
    let mut b = BrcmfOps::new(regs(1));
    let bdev = brcmfmac_probe(&mut b, 0x1800_A000, [0; 6]).ok().unwrap();
    assert_eq!(b.scan(&bdev, None), Ok(()));
    assert_eq!(b.bcdc_get(bdev.hw_idx, 0x5), Ok(1));
}
