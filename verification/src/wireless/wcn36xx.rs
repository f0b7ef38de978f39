//! Qualcomm WCN36xx chips: a directly programmed MAC with hardware scan,
//! association and a TX FIFO.
use vstd::prelude::*;
use crate::clk::mmio::{IoEvent, RegisterIo};
use crate::error::KernelError;
use crate::wireless::{WifiOp, Band, ConnectReq, WirelessDev, WirelessOps, wdev_wf};
use crate::wireless::chip::{
    CHIP_BASE_LIMIT, HwSlot, MAX_CHIPS, alloc_slot, bit_wait, chan_to_freq, chip_read, chip_reads, chip_rmw,
    chip_rmw_events, chip_write, chip_writes, first_unused, frame_words, freq_to_chan, freq_chan, le_word, le_word_of,
    scan_result_for, slot_base, slot_base_of, slots_wf, wait_bit, write_frame,
};

verus! {

/// Register offsets from the chip's base.
pub const REG_CTRL: u64 = 0x0000;
pub const REG_STATUS: u64 = 0x0004;
pub const REG_TX_CTRL: u64 = 0x0010;
pub const REG_RX_CTRL: u64 = 0x0014;
pub const REG_CHAN_CTRL: u64 = 0x0020;
pub const REG_SCAN_CTRL: u64 = 0x0024;
pub const REG_PWR: u64 = 0x0030;
pub const REG_MAC_ADDR0: u64 = 0x0040;
pub const REG_MAC_ADDR1: u64 = 0x0044;
pub const REG_ASSOC_BSSID0: u64 = 0x0050;
pub const REG_ASSOC_BSSID1: u64 = 0x0054;
pub const REG_RSSI: u64 = 0x0060;
pub const REG_IRQ_STATUS: u64 = 0x0080;
pub const REG_IRQ_MASK: u64 = 0x0084;
pub const REG_IRQ_CLEAR: u64 = 0x0088;
pub const REG_TX_FIFO: u64 = 0x0100;
pub const REG_TX_LEN: u64 = 0x0104;
pub const REG_RX_FIFO: u64 = 0x0200;

pub const CTRL_RESET: u32 = 0x1;
pub const CTRL_ENABLE: u32 = 0x2;
pub const CTRL_RX_ENABLE: u32 = 0x4;
pub const CTRL_TX_ENABLE: u32 = 0x8;
pub const STATUS_READY: u32 = 0x1;
pub const SCAN_START: u32 = 0x1;
pub const SCAN_ACTIVE: u32 = 0x4;
pub const IRQ_RX: u32 = 0x1;
pub const IRQ_TX_DONE: u32 = 0x2;
pub const IRQ_SCAN_DONE: u32 = 0x4;
pub const IRQ_DISASSOC: u32 = 0x8;
/// Longest frame (MSDU) sent.
pub const MAX_MSDU: usize = 2304;

/// State of one WCN36xx chip.
#[derive(Clone, Copy)]
pub struct Wcn36xxHw {
    pub base: u64,
    pub fw_loaded: bool,
    pub channel_mhz: u32,
    pub tx_power_dbm: i8,
    pub associated: bool,
    pub used: bool,
}

impl Wcn36xxHw {
    /// A free slot: channel 2412 MHz, 20 dBm.
    pub fn empty() -> (h: Wcn36xxHw)
        ensures
            h == Self::empty_spec(),
    {
        Wcn36xxHw { base: 0, fw_loaded: false, channel_mhz: 2412, tx_power_dbm: 20, associated: false, used: false }
    }

    pub open spec fn empty_spec() -> Wcn36xxHw {
        Wcn36xxHw { base: 0, fw_loaded: false, channel_mhz: 2412, tx_power_dbm: 20, associated: false, used: false }
    }
}

impl HwSlot for Wcn36xxHw {
    open spec fn is_used(&self) -> bool {
        self.used
    }

    open spec fn base_of(&self) -> u64 {
        self.base
    }

    open spec fn fresh_spec(base: u64) -> Wcn36xxHw {
        Wcn36xxHw { base, used: true, ..Wcn36xxHw::empty_spec() }
    }

    fn used(&self) -> (b: bool) {
        self.used
    }

    fn base(&self) -> (b: u64) {
        self.base
    }

    fn fresh(base: u64) -> (s: Wcn36xxHw) {
        Wcn36xxHw { base, used: true, ..Wcn36xxHw::empty() }
    }
}

/// Takes a free slot for a chip at `base` (see `alloc_slot`).
pub fn alloc_hw(table: &mut Vec<Wcn36xxHw>, base: u64) -> (r: Result<u8, KernelError>)
    requires
        slots_wf(old(table)@),
        base <= CHIP_BASE_LIMIT,
    ensures
        slots_wf(final(table)@),
        first_unused(old(table)@, 0) is None ==> r == Err::<u8, KernelError>(KernelError::ResourceExhausted)
            && final(table)@ == old(table)@,
        first_unused(old(table)@, 0) matches Some(k) ==> r == Ok::<u8, KernelError>(k as u8)
            && final(table)@ == old(table)@.update(k, Wcn36xxHw::fresh_spec(base)),
{
    alloc_slot(table, base)
}

/// The WCN36xx driver: its slot table and the register access to its chips.
pub struct Wcn36xxOps<R: RegisterIo> {
    pub table: Vec<Wcn36xxHw>,
    pub io: R,
    /// The operations asked of it, in order, with their results.
    pub wlog: Ghost<Seq<(WifiOp, u8, Result<(), KernelError>)>>,
}

impl<R: RegisterIo> Wcn36xxOps<R> {
    /// Four free slots.
    pub fn new(io: R) -> (o: Wcn36xxOps<R>)
        ensures
            slots_wf(o.table@),
            forall|i: int| 0 <= i < MAX_CHIPS ==> #[trigger] o.table@[i] == Wcn36xxHw::empty_spec(),
    {
        let mut table: Vec<Wcn36xxHw> = Vec::new();
        let mut i: usize = 0;
        while i < MAX_CHIPS
            invariant
                i <= MAX_CHIPS,
                table@.len() == i,
                forall|k: int| 0 <= k < i ==> #[trigger] table@[k] == Wcn36xxHw::empty_spec(),
            decreases MAX_CHIPS - i,
        {
            table.push(Wcn36xxHw::empty());
            i = i + 1;
        }
        Wcn36xxOps { table, io, wlog: Ghost(Seq::empty()) }
    }
}

/// The accesses of `init` on the chip at `base` with address `mac`: the
/// reset, the ready wait whose reads gave `vals`, the enabling
/// read-modify-write that read `cur`, the address and the interrupt mask.
pub open spec fn wcn_init_events(base: u64, mac: [u8; 6], vals: Seq<u32>, cur: u32) -> Seq<IoEvent> {
    let en = CTRL_ENABLE | CTRL_RX_ENABLE | CTRL_TX_ENABLE;
    chip_writes(base, REG_CTRL, seq![CTRL_RESET]) + chip_reads(base, REG_STATUS, vals) + chip_rmw_events(base,
        REG_CTRL, cur, CTRL_RESET | en, en) + chip_writes(base, REG_MAC_ADDR0, seq![
        le_word(mac@[0], mac@[1], mac@[2], mac@[3])]) + chip_writes(base, REG_MAC_ADDR1, seq![
        le_word(mac@[4], mac@[5], 0, 0)]) + chip_writes(base, REG_IRQ_MASK, seq![
        !(IRQ_RX | IRQ_TX_DONE | IRQ_SCAN_DONE | IRQ_DISASSOC)])
}

/// The accesses of `connect` on the chip at `base`: the channel of the
/// frequency hint, the BSSID words, then the association request
/// (a read-modify-write that read `cur`).
pub open spec fn wcn_connect_events(base: u64, freq: u16, b: [u8; 6], cur: u32) -> Seq<IoEvent> {
    chip_writes(base, REG_CHAN_CTRL, seq![freq_chan(freq) as u32]) + chip_writes(base, REG_ASSOC_BSSID0, seq![
        le_word(b@[0], b@[1], b@[2], b@[3])]) + chip_writes(base, REG_ASSOC_BSSID1, seq![le_word(b@[4], b@[5], 0, 0)])
        + chip_rmw_events(base, REG_CTRL, cur, 0xFF00, 0x0100)
}

/// The accesses of an interrupt on the chip at `base` whose status read
/// gave `status` and, on scan-done, whose channel and RSSI reads gave
/// `chan` and `rssi`: the reads, then the status written back to clear it.
pub open spec fn wcn_irq_events(base: u64, status: u32, chan: u32, rssi: u32) -> Seq<IoEvent> {
    chip_reads(base, REG_IRQ_STATUS, seq![status]) + (if status & IRQ_SCAN_DONE != 0 {
        chip_reads(base, REG_CHAN_CTRL, seq![chan]) + chip_reads(base, REG_RSSI, seq![rssi])
    } else {
        seq![]
    }) + chip_writes(base, REG_IRQ_CLEAR, seq![status])
}

impl<R: RegisterIo> Wcn36xxOps<R> {
    /// The hardware side of `init`.
    fn init_hw(&mut self, dev: &WirelessDev) -> (r: Result<(), KernelError>)
        ensures
            r is Ok,
            final(self).table@.len() == old(self).table@.len(),
            (dev.hw_idx as int) < old(self).table@.len() ==> final(self).table@[dev.hw_idx as int].fw_loaded,
            exists|vals: Seq<u32>, cur: u32| #![trigger wcn_init_events(slot_base_of(old(self).table@, dev.hw_idx), dev.mac_addr, vals, cur)]
                (bit_wait(vals, STATUS_READY, 10_000, true) || bit_wait(vals, STATUS_READY, 10_000, false))
                    && final(self).io.trace() == old(self).io.trace() + wcn_init_events(slot_base_of(old(self).table@, dev.hw_idx), dev.mac_addr, vals, cur),
    {
        let idx = dev.hw_idx;
        let base = slot_base(&self.table, idx);
        chip_write(&mut self.io, base, REG_CTRL, CTRL_RESET);
        let ghost t1 = self.io.trace();
        let hit = wait_bit(&mut self.io, base, REG_STATUS, STATUS_READY, 10_000);
        let ghost t2 = self.io.trace();
        let en = CTRL_ENABLE | CTRL_RX_ENABLE | CTRL_TX_ENABLE;
        chip_rmw(&mut self.io, base, REG_CTRL, CTRL_RESET | en, en);
        let ghost t3 = self.io.trace();
        let mac = dev.mac_addr;
        chip_write(&mut self.io, base, REG_MAC_ADDR0, le_word_of(mac[0], mac[1], mac[2], mac[3]));
        chip_write(&mut self.io, base, REG_MAC_ADDR1, le_word_of(mac[4], mac[5], 0, 0));
        chip_write(&mut self.io, base, REG_IRQ_MASK, !(IRQ_RX | IRQ_TX_DONE | IRQ_SCAN_DONE | IRQ_DISASSOC));
        proof {
            let vals = choose|vals: Seq<u32>| bit_wait(vals, STATUS_READY, 10_000, hit) && #[trigger] chip_reads(base,
                REG_STATUS, vals) == chip_reads(base, REG_STATUS, vals) && t2 == t1 + chip_reads(base, REG_STATUS, vals);
            let cur = choose|cur: u32| t3 == t2 + #[trigger] chip_rmw_events(base, REG_CTRL, cur, CTRL_RESET | en, en);
            assert(self.io.trace() =~= old(self).io.trace() + wcn_init_events(base, mac, vals, cur));
        }
        let i = idx as usize;
        if i < self.table.len() {
            let mut h = self.table[i];
            h.fw_loaded = true;
            self.table.set(i, h);
        }
        Ok(())
    }

    /// The hardware side of `scan`.
    fn scan_hw(&mut self, dev: &WirelessDev, ssid: Option<&[u8]>) -> (r: Result<(), KernelError>)
        ensures
            r is Ok,
            final(self).table@ == old(self).table@,
            final(self).io.trace() == old(self).io.trace() + chip_writes(slot_base_of(old(self).table@, dev.hw_idx), REG_SCAN_CTRL, seq![
                SCAN_START | SCAN_ACTIVE]),
    {
        let base = slot_base(&self.table, dev.hw_idx);
        chip_write(&mut self.io, base, REG_SCAN_CTRL, SCAN_START | SCAN_ACTIVE);
        Ok(())
    }

    /// The hardware side of `connect`.
    fn connect_hw(&mut self, dev: &WirelessDev, req: &ConnectReq) -> (r: Result<(), KernelError>)
        ensures
            r is Ok,
            final(self).table@ == old(self).table@,
            exists|cur: u32| final(self).io.trace() == old(self).io.trace() + #[trigger] wcn_connect_events(slot_base_of(old(self).table@, dev.hw_idx),
                req.channel, req.bssid, cur),
    {
        let base = slot_base(&self.table, dev.hw_idx);
        let ch = freq_to_chan(req.channel);
        chip_write(&mut self.io, base, REG_CHAN_CTRL, ch as u32);
        let b = req.bssid;
        chip_write(&mut self.io, base, REG_ASSOC_BSSID0, le_word_of(b[0], b[1], b[2], b[3]));
        chip_write(&mut self.io, base, REG_ASSOC_BSSID1, le_word_of(b[4], b[5], 0, 0));
        let ghost t1 = self.io.trace();
        chip_rmw(&mut self.io, base, REG_CTRL, 0xFF00, 0x0100);
        proof {
            let cur = choose|cur: u32| self.io.trace() == t1 + #[trigger] chip_rmw_events(base, REG_CTRL, cur, 0xFF00,
                0x0100);
            assert(self.io.trace() =~= old(self).io.trace() + wcn_connect_events(base, req.channel, b, cur));
        }
        Ok(())
    }

    /// The hardware side of `disconnect`.
    fn disconnect_hw(&mut self, dev: &WirelessDev, reason: u16)
        ensures
            final(self).table@.len() == old(self).table@.len(),
            (dev.hw_idx as int) < old(self).table@.len() ==> !final(self).table@[dev.hw_idx as int].associated,
            final(self).io.trace() == old(self).io.trace() + chip_writes(slot_base_of(old(self).table@, dev.hw_idx), REG_CHAN_CTRL, seq![
                ((reason as u32) << 16u32) | 0x0001]),
    {
        let base = slot_base(&self.table, dev.hw_idx);
        chip_write(&mut self.io, base, REG_CHAN_CTRL, ((reason as u32) << 16u32) | 0x0001);
        let i = dev.hw_idx as usize;
        if i < self.table.len() {
            let mut h = self.table[i];
            h.associated = false;
            self.table.set(i, h);
        }
    }

    /// The hardware side of `tx`.
    fn tx_hw(&mut self, dev: &WirelessDev, data: &[u8]) -> (r: Result<(), KernelError>)
        ensures
            final(self).table@ == old(self).table@,
            data@.len() > MAX_MSDU ==> r == Err::<(), KernelError>(KernelError::InvalidParameter("frame too large")),
            data@.len() <= MAX_MSDU ==> r is Ok,
            data@.len() > MAX_MSDU ==> final(self).io.trace() == old(self).io.trace(),
            data@.len() <= MAX_MSDU ==> exists|cur: u32| final(self).io.trace() == old(self).io.trace() + chip_writes(
                slot_base_of(old(self).table@, dev.hw_idx), REG_TX_LEN, seq![data@.len() as u32]) + chip_writes(slot_base_of(old(self).table@, dev.hw_idx), REG_TX_FIFO, frame_words(data@))
                + #[trigger] chip_rmw_events(slot_base_of(old(self).table@, dev.hw_idx), REG_TX_CTRL, cur, 0x01, 0x01),
    {
        if data.len() > MAX_MSDU {
            return Err(KernelError::InvalidParameter("frame too large"));
        }
        let base = slot_base(&self.table, dev.hw_idx);
        write_frame(&mut self.io, base, REG_TX_LEN, REG_TX_FIFO, data);
        let ghost t1 = self.io.trace();
        chip_rmw(&mut self.io, base, REG_TX_CTRL, 0x01, 0x01);
        proof {
            assert((data@.len() % 0x1_0000_0000) as u32 == data@.len() as u32);
            let cur = choose|cur: u32| self.io.trace() == t1 + #[trigger] chip_rmw_events(base, REG_TX_CTRL, cur, 0x01,
                0x01);
            assert(self.io.trace() == old(self).io.trace() + chip_writes(base, REG_TX_LEN, seq![data@.len() as u32])
                + chip_writes(base, REG_TX_FIFO, frame_words(data@)) + chip_rmw_events(base, REG_TX_CTRL, cur, 0x01,
                0x01));
        }
        Ok(())
    }
}

impl<R: RegisterIo> WirelessOps for Wcn36xxOps<R> {
    closed spec fn wcalls(&self) -> Seq<(WifiOp, u8, Result<(), KernelError>)> {
        self.wlog@
    }

    /// Resets the chip, waits (boundedly) for it, enables it with RX and
    /// TX, programs the MAC address, unmasks the interrupts and marks the
    /// firmware loaded.
    fn init(&mut self, dev: &WirelessDev) -> (r: Result<(), KernelError>)
        ensures
            r is Ok,
            final(self).table@.len() == old(self).table@.len(),
            (dev.hw_idx as int) < old(self).table@.len() ==> final(self).table@[dev.hw_idx as int].fw_loaded,
            exists|vals: Seq<u32>, cur: u32| #![trigger wcn_init_events(slot_base_of(old(self).table@, dev.hw_idx), dev.mac_addr, vals, cur)]
                (bit_wait(vals, STATUS_READY, 10_000, true) || bit_wait(vals, STATUS_READY, 10_000, false))
                    && final(self).io.trace() == old(self).io.trace() + wcn_init_events(slot_base_of(old(self).table@, dev.hw_idx), dev.mac_addr, vals, cur),
    {
        let r = self.init_hw(dev);
        self.wlog = Ghost(old(self).wlog@.push((WifiOp::Init, dev.hw_idx, r)));
        r
    }

    /// Masks every interrupt, holds the chip in reset, firmware no longer
    /// loaded.
    fn deinit(&mut self, dev: &WirelessDev)
        ensures
            final(self).table@.len() == old(self).table@.len(),
            (dev.hw_idx as int) < old(self).table@.len() ==> !final(self).table@[dev.hw_idx as int].fw_loaded,
            final(self).io.trace() == old(self).io.trace() + chip_writes(slot_base_of(old(self).table@, dev.hw_idx), REG_IRQ_MASK, seq![0xFFFF_FFFFu32])
                + chip_writes(slot_base_of(old(self).table@, dev.hw_idx), REG_CTRL, seq![CTRL_RESET]),
    {
        let idx = dev.hw_idx;
        let base = slot_base(&self.table, idx);
        chip_write(&mut self.io, base, REG_IRQ_MASK, 0xFFFF_FFFF);
        chip_write(&mut self.io, base, REG_CTRL, CTRL_RESET);
        let i = idx as usize;
        if i < self.table.len() {
            let mut h = self.table[i];
            h.fw_loaded = false;
            self.table.set(i, h);
        }
    }

    /// Starts an active hardware scan.
    fn scan(&mut self, dev: &WirelessDev, ssid: Option<&[u8]>) -> (r: Result<(), KernelError>)
        ensures
            r is Ok,
            final(self).table@ == old(self).table@,
            final(self).io.trace() == old(self).io.trace() + chip_writes(slot_base_of(old(self).table@, dev.hw_idx), REG_SCAN_CTRL, seq![
                SCAN_START | SCAN_ACTIVE]),
    {
        let r = self.scan_hw(dev, ssid);
        self.wlog = Ghost(old(self).wlog@.push((WifiOp::Scan, dev.hw_idx, r)));
        r
    }

    /// Stops the scan.
    fn abort_scan(&mut self, dev: &WirelessDev)
        ensures
            final(self).table@ == old(self).table@,
            final(self).io.trace() == old(self).io.trace() + chip_writes(slot_base_of(old(self).table@, dev.hw_idx), REG_SCAN_CTRL, seq![0u32]),
    {
        let base = slot_base(&self.table, dev.hw_idx);
        chip_write(&mut self.io, base, REG_SCAN_CTRL, 0);
    }

    /// Selects the channel of the request's frequency hint, programs the
    /// BSSID and starts association.
    fn connect(&mut self, dev: &WirelessDev, req: &ConnectReq) -> (r: Result<(), KernelError>)
        ensures
            r is Ok,
            final(self).table@ == old(self).table@,
            exists|cur: u32| final(self).io.trace() == old(self).io.trace() + #[trigger] wcn_connect_events(slot_base_of(old(self).table@, dev.hw_idx),
                req.channel, req.bssid, cur),
    {
        let r = self.connect_hw(dev, req);
        self.wlog = Ghost(old(self).wlog@.push((WifiOp::Connect, dev.hw_idx, r)));
        r
    }

    /// Sends a deauthentication with the reason; no longer associated.
    fn disconnect(&mut self, dev: &WirelessDev, reason: u16)
        ensures
            final(self).table@.len() == old(self).table@.len(),
            (dev.hw_idx as int) < old(self).table@.len() ==> !final(self).table@[dev.hw_idx as int].associated,
            final(self).io.trace() == old(self).io.trace() + chip_writes(slot_base_of(old(self).table@, dev.hw_idx), REG_CHAN_CTRL, seq![
                ((reason as u32) << 16u32) | 0x0001]),
    {
        self.disconnect_hw(dev, reason);
        self.wlog = Ghost(old(self).wlog@.push((WifiOp::Disconnect, dev.hw_idx, Ok(()))));
    }

    /// Sends a frame of at most 2304 bytes (length, then the words, then
    /// TX enable); longer frames are refused.
    fn tx(&mut self, dev: &WirelessDev, data: &[u8]) -> (r: Result<(), KernelError>)
        ensures
            final(self).table@ == old(self).table@,
            data@.len() > MAX_MSDU ==> r == Err::<(), KernelError>(KernelError::InvalidParameter("frame too large")),
            data@.len() <= MAX_MSDU ==> r is Ok,
            data@.len() > MAX_MSDU ==> final(self).io.trace() == old(self).io.trace(),
            data@.len() <= MAX_MSDU ==> exists|cur: u32| final(self).io.trace() == old(self).io.trace() + chip_writes(
                slot_base_of(old(self).table@, dev.hw_idx), REG_TX_LEN, seq![data@.len() as u32]) + chip_writes(slot_base_of(old(self).table@, dev.hw_idx), REG_TX_FIFO, frame_words(data@))
                + #[trigger] chip_rmw_events(slot_base_of(old(self).table@, dev.hw_idx), REG_TX_CTRL, cur, 0x01, 0x01),
    {
        let r = self.tx_hw(dev, data);
        self.wlog = Ghost(old(self).wlog@.push((WifiOp::Tx, dev.hw_idx, r)));
        r
    }

    /// Programs the power (the dBm value's low byte) and records it.
    fn set_tx_power(&mut self, dev: &WirelessDev, dbm: i8) -> (r: Result<(), KernelError>)
        ensures
            r is Ok,
            final(self).table@.len() == old(self).table@.len(),
            (dev.hw_idx as int) < old(self).table@.len() ==> final(self).table@ == old(self).table@.update(
                dev.hw_idx as int, Wcn36xxHw { tx_power_dbm: dbm, ..old(self).table@[dev.hw_idx as int] }),
            final(self).io.trace() == old(self).io.trace() + chip_writes(slot_base_of(old(self).table@, dev.hw_idx), REG_PWR, seq![(dbm as u8) as u32]),
    {
        let base = slot_base(&self.table, dev.hw_idx);
        chip_write(&mut self.io, base, REG_PWR, (dbm as u8) as u32);
        let i = dev.hw_idx as usize;
        if i < self.table.len() {
            let mut h = self.table[i];
            h.tx_power_dbm = dbm;
            self.table.set(i, h);
        }
        Ok(())
    }

    /// The RSSI register's low byte as dBm.
    fn get_signal(&mut self, dev: &WirelessDev) -> (s: i8)
        ensures
            final(self).table@ == old(self).table@,
            exists|v: u32| #![trigger chip_reads(slot_base_of(old(self).table@, dev.hw_idx), REG_RSSI, seq![v])]
                (slot_base_of(old(self).table@, dev.hw_idx) == 0 ==> v == 0) && s == (v & 0xFF) as u8 as i8
                    && final(self).io.trace() == old(self).io.trace() + chip_reads(slot_base_of(old(self).table@, dev.hw_idx), REG_RSSI, seq![v]),
    {
        let base = slot_base(&self.table, dev.hw_idx);
        let v = chip_read(&mut self.io, base, REG_RSSI);
        assert(self.io.trace() =~= old(self).io.trace() + chip_reads(base, REG_RSSI, seq![v]));
        (v & 0xFF) as u8 as i8
    }
}

/// Interrupt of the chip behind `dev`: on scan-done one result for the
/// channel in the channel register joins the ring; on disassociation the
/// chip is no longer associated; the status bits are then cleared.
pub fn wcn36xx_irq_handler<R: RegisterIo>(ops: &mut Wcn36xxOps<R>, dev: &mut WirelessDev)
    requires
        wdev_wf(old(dev)),
    ensures
        wdev_wf(final(dev)),
        final(ops).table@.len() == old(ops).table@.len(),
        final(dev).hw_idx == old(dev).hw_idx && final(dev).state == old(dev).state,
        final(dev).scan_count == old(dev).scan_count || final(dev).scan_count == crate::wireless::wrap_add(
            old(dev).scan_count, 1),
        exists|status: u32, chan: u32, rssi: u32| #![trigger wcn_irq_events(slot_base_of(old(ops).table@, old(dev).hw_idx), status, chan, rssi)]
            final(ops).io.trace() == old(ops).io.trace() + wcn_irq_events(slot_base_of(old(ops).table@, old(dev).hw_idx), status, chan, rssi)
                && (status & IRQ_SCAN_DONE == 0 ==> final(dev).scan_count == old(dev).scan_count
                && final(dev).scan_results@ == old(dev).scan_results@) && (status & IRQ_SCAN_DONE != 0
                ==> final(dev).scan_count == crate::wireless::wrap_add(old(dev).scan_count, 1)
                && final(dev).scan_results@[(old(dev).scan_count % 32) as int].signal_dbm == (rssi & 0xFF) as u8 as i8
                && final(dev).scan_results@[(old(dev).scan_count % 32) as int].channel.hw_value == (chan & 0xFFFF) as u16)
                && (status & IRQ_DISASSOC != 0 && (old(dev).hw_idx as int) < old(ops).table@.len()
                ==> !final(ops).table@[old(dev).hw_idx as int].associated),
{
    let base = slot_base(&ops.table, dev.hw_idx);
    let status = chip_read(&mut ops.io, base, REG_IRQ_STATUS);
    let ghost mut cv: u32 = 0;
    let ghost mut rv: u32 = 0;
    if status & IRQ_SCAN_DONE != 0 {
        let freq = chip_read(&mut ops.io, base, REG_CHAN_CTRL);
        let v = chip_read(&mut ops.io, base, REG_RSSI);
        proof {
            cv = freq;
            rv = v;
        }
        let rssi = (v & 0xFF) as u8 as i8;
        let chan = (freq & 0xFFFF) as u16;
        let band = if freq < 15 { Band::Band2GHz } else { Band::Band5GHz };
        let result = scan_result_for(chan, chan_to_freq(chan), band, rssi);
        dev.add_scan_result(result);
    }
    if status & IRQ_DISASSOC != 0 {
        let i = dev.hw_idx as usize;
        if i < ops.table.len() {
            let mut h = ops.table[i];
            h.associated = false;
            ops.table.set(i, h);
        }
    }
    chip_write(&mut ops.io, base, REG_IRQ_CLEAR, status);
    assert(ops.io.trace() =~= old(ops).io.trace() + wcn_irq_events(base, status, cv, rv));
}

/// A device for a new WCN36xx chip at `base` with address `mac`, in the
/// first free slot; `ResourceExhausted` when none is free.
pub fn wcn36xx_probe<R: RegisterIo>(ops: &mut Wcn36xxOps<R>, base: u64, mac: [u8; 6]) -> (r: Result<WirelessDev, KernelError>)
    requires
        slots_wf(old(ops).table@),
        base <= CHIP_BASE_LIMIT,
    ensures
        slots_wf(final(ops).table@),
        first_unused(old(ops).table@, 0) is None <==> r is Err,
        r is Err ==> r == Err::<WirelessDev, KernelError>(KernelError::ResourceExhausted),
        r matches Ok(d) ==> wdev_wf(&d) && d.mac_addr == mac && d.state == 0
            && first_unused(old(ops).table@, 0) == Some(d.hw_idx as int)
            && final(ops).table@ == old(ops).table@.update(d.hw_idx as int, Wcn36xxHw::fresh_spec(base)),
{
    proof { crate::wireless::chip::lemma_first_unused(ops.table@, 0); }
    let idx = alloc_hw(&mut ops.table, base)?;
    Ok(WirelessDev::new(idx, mac))
}

} // verus!
