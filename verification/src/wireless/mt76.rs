//! MediaTek MT76 chips: DMA engines set up by the host, everything else
//! through the on-chip MCU's command mailbox.
use vstd::prelude::*;
use crate::clk::mmio::{IoEvent, RegisterIo};
use crate::error::KernelError;
use crate::wireless::{WifiOp, Band, ConnectReq, WirelessDev, WirelessOps, wdev_wf};
use crate::wireless::chip::{
    CHIP_BASE_LIMIT, HwSlot, MAX_CHIPS, alloc_slot, bit_wait, chan_to_freq, chip_read, chip_reads, chip_rmw,
    chip_rmw_events, chip_write, chip_writes, first_unused, frame_words, le_word, le_word_of, scan_result_for, slot_base,
    slot_base_of, slots_wf, wait_bit, write_frame,
};

verus! {

/// Register offsets from the chip's base.
pub const MT_INT_SOURCE_CSR: u64 = 0x0200;
pub const MT_INT_MASK_CSR: u64 = 0x0204;
pub const MT_WPDMA_GLO_CFG: u64 = 0x0208;
pub const MT_TX_RING_BASE: u64 = 0x0300;
pub const MT_RX_RING_BASE: u64 = 0x0380;
pub const MT_MCU_CMD: u64 = 0x0500;
pub const MT_MCU_DATA: u64 = 0x0504;
pub const MT_MCU_STATUS: u64 = 0x0508;
pub const MT_CHAN_CTRL: u64 = 0x0600;
pub const MT_RSSI: u64 = 0x0604;
pub const MT_PWR_CTRL: u64 = 0x0700;
pub const MT_MAC_ADDR_LO: u64 = 0x0800;
pub const MT_MAC_ADDR_HI: u64 = 0x0804;
pub const MT_BSSID_LO: u64 = 0x0810;
pub const MT_BSSID_HI: u64 = 0x0814;
pub const MT_TX_FIFO: u64 = 0x1000;
pub const MT_TX_LEN: u64 = 0x1004;
pub const MT_RX_FIFO: u64 = 0x1100;

pub const WPDMA_TX_DMA_EN: u32 = 0x1;
pub const WPDMA_RX_DMA_EN: u32 = 0x4;
pub const WPDMA_BT_SIZE_4: u32 = 0x20;
pub const INT_TX_DONE: u32 = 0x1;
pub const INT_RX_DONE: u32 = 0x1_0000;
pub const INT_MCU_CMD: u32 = 0x2000_0000;
pub const INT_SCAN_DONE: u32 = 0x4000_0000;

pub const MCU_CMD_SCAN: u32 = 0x01;
pub const MCU_CMD_CONNECT: u32 = 0x05;
pub const MCU_CMD_DISCONNECT: u32 = 0x06;
pub const MCU_CMD_SET_CHAN: u32 = 0x10;
pub const MCU_CMD_SET_PWR: u32 = 0x11;

/// State of one MT76 chip.
#[derive(Clone, Copy)]
pub struct Mt76Hw {
    pub base: u64,
    pub mcu_ready: bool,
    pub channel: u16,
    pub tx_power: i8,
    pub used: bool,
}

impl Mt76Hw {
    /// A free slot: channel 1, 20 dBm.
    pub fn empty() -> (h: Mt76Hw)
        ensures
            h == Self::empty_spec(),
    {
        Mt76Hw { base: 0, mcu_ready: false, channel: 1, tx_power: 20, used: false }
    }

    pub open spec fn empty_spec() -> Mt76Hw {
        Mt76Hw { base: 0, mcu_ready: false, channel: 1, tx_power: 20, used: false }
    }
}

impl HwSlot for Mt76Hw {
    open spec fn is_used(&self) -> bool {
        self.used
    }

    open spec fn base_of(&self) -> u64 {
        self.base
    }

    open spec fn fresh_spec(base: u64) -> Mt76Hw {
        Mt76Hw { base, used: true, ..Mt76Hw::empty_spec() }
    }

    fn used(&self) -> (b: bool) {
        self.used
    }

    fn base(&self) -> (b: u64) {
        self.base
    }

    fn fresh(base: u64) -> (s: Mt76Hw) {
        Mt76Hw { base, used: true, ..Mt76Hw::empty() }
    }
}

/// Takes a free slot for a chip at `base` (see `alloc_slot`).
pub fn alloc_hw(table: &mut Vec<Mt76Hw>, base: u64) -> (r: Result<u8, KernelError>)
    requires
        slots_wf(old(table)@),
        base <= CHIP_BASE_LIMIT,
    ensures
        slots_wf(final(table)@),
        first_unused(old(table)@, 0) is None ==> r == Err::<u8, KernelError>(KernelError::ResourceExhausted)
            && final(table)@ == old(table)@,
        first_unused(old(table)@, 0) matches Some(k) ==> r == Ok::<u8, KernelError>(k as u8)
            && final(table)@ == old(table)@.update(k, Mt76Hw::fresh_spec(base)),
{
    alloc_slot(table, base)
}

/// The MT76 driver: its slot table and the register access to its chips.
pub struct Mt76Ops<R: RegisterIo> {
    pub table: Vec<Mt76Hw>,
    pub io: R,
    /// The operations asked of it, in order, with their results.
    pub wlog: Ghost<Seq<(WifiOp, u8, Result<(), KernelError>)>>,
}

impl<R: RegisterIo> Mt76Ops<R> {
    /// Four free slots.
    pub fn new(io: R) -> (o: Mt76Ops<R>)
        ensures
            slots_wf(o.table@),
            forall|i: int| 0 <= i < MAX_CHIPS ==> #[trigger] o.table@[i] == Mt76Hw::empty_spec(),
    {
        let mut table: Vec<Mt76Hw> = Vec::new();
        let mut i: usize = 0;
        while i < MAX_CHIPS
            invariant
                i <= MAX_CHIPS,
                table@.len() == i,
                forall|k: int| 0 <= k < i ==> #[trigger] table@[k] == Mt76Hw::empty_spec(),
            decreases MAX_CHIPS - i,
        {
            table.push(Mt76Hw::empty());
            i = i + 1;
        }
        Mt76Ops { table, io, wlog: Ghost(Seq::empty()) }
    }

    /// Posts MCU command `cmd` with `param` once the mailbox is free
    /// (polled up to 5000 times); `Timeout` otherwise.
    fn mcu_send(&mut self, hw_idx: u8, cmd: u32, param: u32) -> (r: Result<(), KernelError>)
        ensures
            final(self).table@ == old(self).table@,
            r is Err ==> r == Err::<(), KernelError>(KernelError::Timeout),
            mcu_posted(slot_base_of(old(self).table@, hw_idx), cmd, param, old(self).io.trace(), final(self).io.trace(),
                r is Ok),
    {
        let base = slot_base(&self.table, hw_idx);
        if wait_bit(&mut self.io, base, MT_MCU_STATUS, 0x01, 5000) {
            chip_write(&mut self.io, base, MT_MCU_CMD, cmd);
            chip_write(&mut self.io, base, MT_MCU_DATA, param);
            proof {
                let vals = choose|vals: Seq<u32>| bit_wait(vals, 0x01, 5000, true) && #[trigger] chip_reads(base,
                    MT_MCU_STATUS, vals) == chip_reads(base, MT_MCU_STATUS, vals) && self.io.trace()
                    == old(self).io.trace() + chip_reads(base, MT_MCU_STATUS, vals) + chip_writes(base, MT_MCU_CMD,
                    seq![cmd]) + chip_writes(base, MT_MCU_DATA, seq![param]);
                assert(self.io.trace() =~= old(self).io.trace() + mcu_events(base, cmd, param, vals, true));
            }
            Ok(())
        } else {
            proof {
                let vals = choose|vals: Seq<u32>| bit_wait(vals, 0x01, 5000, false) && #[trigger] chip_reads(base,
                    MT_MCU_STATUS, vals) == chip_reads(base, MT_MCU_STATUS, vals) && self.io.trace()
                    == old(self).io.trace() + chip_reads(base, MT_MCU_STATUS, vals);
                assert(self.io.trace() =~= old(self).io.trace() + mcu_events(base, cmd, param, vals, false));
            }
            Err(KernelError::Timeout)
        }
    }
}

/// The accesses of posting MCU command `cmd` with `param` to the chip at
/// `base`: the status reads `vals` of the wait for a free mailbox, then,
/// when it came free, the command and the parameter.
pub open spec fn mcu_events(base: u64, cmd: u32, param: u32, vals: Seq<u32>, ok: bool) -> Seq<IoEvent> {
    chip_reads(base, MT_MCU_STATUS, vals) + if ok {
        chip_writes(base, MT_MCU_CMD, seq![cmd]) + chip_writes(base, MT_MCU_DATA, seq![param])
    } else {
        seq![]
    }
}

/// Whether history `after` is `before` followed by a post of MCU command
/// `cmd` with `param` (waiting at most 5000 polls), which succeeded
/// exactly when `ok`.
pub open spec fn mcu_posted(base: u64, cmd: u32, param: u32, before: Seq<IoEvent>, after: Seq<IoEvent>, ok: bool) -> bool {
    exists|vals: Seq<u32>| #![trigger mcu_events(base, cmd, param, vals, ok)]
        bit_wait(vals, 0x01, 5000, ok) && after == before + mcu_events(base, cmd, param, vals, ok)
}

/// The writes of BSSID `b` to the chip at `base`: its first four bytes,
/// then its last two, as little-endian words.
pub open spec fn bssid_writes(base: u64, b: [u8; 6]) -> Seq<IoEvent> {
    chip_writes(base, MT_BSSID_LO, seq![le_word(b@[0], b@[1], b@[2], b@[3])]) + chip_writes(base, MT_BSSID_HI, seq![
        le_word(b@[4], b@[5], 0, 0)])
}

/// The interrupts `init` unmasks.
pub open spec fn mt76_int_mask() -> u32 {
    INT_TX_DONE | INT_RX_DONE | INT_MCU_CMD | INT_SCAN_DONE
}

/// The accesses of `init` on the chip at `base` with address `mac`: the
/// DMA configuration read-modify-write that read `cur`, the address, the
/// interrupt mask, then the MCU-ready wait whose reads gave `vals`.
pub open spec fn mt76_init_events(base: u64, mac: [u8; 6], cur: u32, vals: Seq<u32>) -> Seq<IoEvent> {
    let dma = WPDMA_TX_DMA_EN | WPDMA_RX_DMA_EN | WPDMA_BT_SIZE_4;
    chip_rmw_events(base, MT_WPDMA_GLO_CFG, cur, dma, dma) + chip_writes(base, MT_MAC_ADDR_LO, seq![
        le_word(mac@[0], mac@[1], mac@[2], mac@[3])]) + chip_writes(base, MT_MAC_ADDR_HI, seq![
        le_word(mac@[4], mac@[5], 0, 0)]) + chip_writes(base, MT_INT_MASK_CSR, seq![mt76_int_mask()])
        + chip_reads(base, MT_MCU_STATUS, vals)
}

/// The accesses of an interrupt on the chip at `base` whose source read
/// gave `src` and, on scan-done, whose RSSI read gave `rssi`: the reads,
/// then the source bits written back to clear them.
pub open spec fn mt76_irq_events(base: u64, src: u32, rssi: u32) -> Seq<IoEvent> {
    chip_reads(base, MT_INT_SOURCE_CSR, seq![src]) + (if src & INT_SCAN_DONE != 0 {
        chip_reads(base, MT_RSSI, seq![rssi])
    } else {
        seq![]
    }) + chip_writes(base, MT_INT_SOURCE_CSR, seq![src])
}

impl<R: RegisterIo> Mt76Ops<R> {
    /// The hardware side of `init`.
    fn init_hw(&mut self, dev: &WirelessDev) -> (r: Result<(), KernelError>)
        ensures
            r is Ok,
            final(self).table@.len() == old(self).table@.len(),
            (dev.hw_idx as int) < old(self).table@.len() ==> final(self).table@[dev.hw_idx as int].mcu_ready,
            exists|cur: u32, vals: Seq<u32>|
                #![trigger mt76_init_events(slot_base_of(old(self).table@, dev.hw_idx), dev.mac_addr, cur, vals)]
                (bit_wait(vals, 0x80, 100_000, true) || bit_wait(vals, 0x80, 100_000, false))
                    && final(self).io.trace() == old(self).io.trace() + mt76_init_events(
                    slot_base_of(old(self).table@, dev.hw_idx), dev.mac_addr, cur, vals),
    {
        let idx = dev.hw_idx;
        let base = slot_base(&self.table, idx);
        let dma = WPDMA_TX_DMA_EN | WPDMA_RX_DMA_EN | WPDMA_BT_SIZE_4;
        chip_rmw(&mut self.io, base, MT_WPDMA_GLO_CFG, dma, dma);
        let ghost t1 = self.io.trace();
        let mac = dev.mac_addr;
        chip_write(&mut self.io, base, MT_MAC_ADDR_LO, le_word_of(mac[0], mac[1], mac[2], mac[3]));
        chip_write(&mut self.io, base, MT_MAC_ADDR_HI, le_word_of(mac[4], mac[5], 0, 0));
        chip_write(&mut self.io, base, MT_INT_MASK_CSR, INT_TX_DONE | INT_RX_DONE | INT_MCU_CMD | INT_SCAN_DONE);
        let ghost t2 = self.io.trace();
        let hit = wait_bit(&mut self.io, base, MT_MCU_STATUS, 0x80, 100_000);
        proof {
            let cur = choose|cur: u32| t1 == old(self).io.trace() + #[trigger] chip_rmw_events(base, MT_WPDMA_GLO_CFG,
                cur, dma, dma);
            let vals = choose|vals: Seq<u32>| bit_wait(vals, 0x80, 100_000, hit) && #[trigger] chip_reads(base,
                MT_MCU_STATUS, vals) == chip_reads(base, MT_MCU_STATUS, vals) && self.io.trace() == t2 + chip_reads(
                base, MT_MCU_STATUS, vals);
            assert(self.io.trace() =~= old(self).io.trace() + mt76_init_events(base, mac, cur, vals));
        }
        let i = idx as usize;
        if i < self.table.len() {
            let mut h = self.table[i];
            h.mcu_ready = true;
            self.table.set(i, h);
        }
        Ok(())
    }

    /// The hardware side of `scan`.
    fn scan_hw(&mut self, dev: &WirelessDev, ssid: Option<&[u8]>) -> (r: Result<(), KernelError>)
        ensures
            final(self).table@ == old(self).table@,
            r is Err ==> r == Err::<(), KernelError>(KernelError::Timeout),
            mcu_posted(slot_base_of(old(self).table@, dev.hw_idx), MCU_CMD_SCAN, 0, old(self).io.trace(),
                final(self).io.trace(), r is Ok),
    {
        self.mcu_send(dev.hw_idx, MCU_CMD_SCAN, 0)
    }

    /// The hardware side of `connect`.
    fn connect_hw(&mut self, dev: &WirelessDev, req: &ConnectReq) -> (r: Result<(), KernelError>)
        ensures
            final(self).table@.len() == old(self).table@.len(),
            r is Err ==> r == Err::<(), KernelError>(KernelError::Timeout),
            r is Ok && (dev.hw_idx as int) < old(self).table@.len() ==> final(self).table@ == old(self).table@.update(
                dev.hw_idx as int, Mt76Hw { channel: req.channel, ..old(self).table@[dev.hw_idx as int] }),
            r is Ok && (dev.hw_idx as int) >= old(self).table@.len() ==> final(self).table@ == old(self).table@,
            r is Err ==> final(self).table@ == old(self).table@ || ((dev.hw_idx as int) < old(self).table@.len()
                && final(self).table@ == old(self).table@.update(
                dev.hw_idx as int, Mt76Hw { channel: req.channel, ..old(self).table@[dev.hw_idx as int] })),
            ({
                let base = slot_base_of(old(self).table@, dev.hw_idx);
                let t0 = old(self).io.trace() + bssid_writes(base, req.bssid);
                ||| mcu_posted(base, MCU_CMD_SET_CHAN, req.channel as u32, t0, final(self).io.trace(), false) && r is Err
                ||| exists|mid: Seq<IoEvent>| #![trigger mcu_posted(base, MCU_CMD_SET_CHAN, req.channel as u32, t0, mid, true)]
                    mcu_posted(base, MCU_CMD_SET_CHAN, req.channel as u32, t0, mid, true) && mcu_posted(base,
                    MCU_CMD_CONNECT, 0, mid, final(self).io.trace(), r is Ok)
            }),
    {
        let base = slot_base(&self.table, dev.hw_idx);
        let b = req.bssid;
        chip_write(&mut self.io, base, MT_BSSID_LO, le_word_of(b[0], b[1], b[2], b[3]));
        chip_write(&mut self.io, base, MT_BSSID_HI, le_word_of(b[4], b[5], 0, 0));
        assert(self.io.trace() =~= old(self).io.trace() + bssid_writes(base, req.bssid));
        let ghost mid = self.io.trace();
        self.mcu_send(dev.hw_idx, MCU_CMD_SET_CHAN, req.channel as u32)?;
        let ghost mid2 = self.io.trace();
        assert(mcu_posted(base, MCU_CMD_SET_CHAN, req.channel as u32, mid, mid2, true));
        let i = dev.hw_idx as usize;
        if i < self.table.len() {
            let mut h = self.table[i];
            h.channel = req.channel;
            self.table.set(i, h);
        }
        self.mcu_send(dev.hw_idx, MCU_CMD_CONNECT, 0)
    }

    /// The hardware side of `disconnect`.
    fn disconnect_hw(&mut self, dev: &WirelessDev, reason: u16)
        ensures
            final(self).table@ == old(self).table@,
            mcu_posted(slot_base_of(old(self).table@, dev.hw_idx), MCU_CMD_DISCONNECT, reason as u32,
                old(self).io.trace(), final(self).io.trace(), true) || mcu_posted(slot_base_of(old(self).table@,
                dev.hw_idx), MCU_CMD_DISCONNECT, reason as u32, old(self).io.trace(), final(self).io.trace(), false),
    {
        let _ = self.mcu_send(dev.hw_idx, MCU_CMD_DISCONNECT, reason as u32);
    }

    /// The hardware side of `tx`.
    fn tx_hw(&mut self, dev: &WirelessDev, data: &[u8]) -> (r: Result<(), KernelError>)
        ensures
            r is Ok,
            final(self).table@ == old(self).table@,
            data@.len() + 3 <= usize::MAX ==> final(self).io.trace() == old(self).io.trace() + chip_writes(
                slot_base_of(old(self).table@, dev.hw_idx), MT_TX_LEN, seq![(data@.len() % 0x1_0000_0000) as u32])
                + chip_writes(slot_base_of(old(self).table@, dev.hw_idx), MT_TX_FIFO, frame_words(data@)),
            data@.len() + 3 > usize::MAX ==> final(self).io.trace() == old(self).io.trace(),
    {
        let base = slot_base(&self.table, dev.hw_idx);
        if data.len() <= usize::MAX - 3 {
            write_frame(&mut self.io, base, MT_TX_LEN, MT_TX_FIFO, data);
        }
        Ok(())
    }
}

impl<R: RegisterIo> WirelessOps for Mt76Ops<R> {
    closed spec fn wcalls(&self) -> Seq<(WifiOp, u8, Result<(), KernelError>)> {
        self.wlog@
    }

    /// Enables the DMA engines, programs the MAC address, unmasks the
    /// interrupts, waits (boundedly) for the MCU and marks it ready.
    fn init(&mut self, dev: &WirelessDev) -> (r: Result<(), KernelError>)
        ensures
            r is Ok,
            final(self).table@.len() == old(self).table@.len(),
            (dev.hw_idx as int) < old(self).table@.len() ==> final(self).table@[dev.hw_idx as int].mcu_ready,
            exists|cur: u32, vals: Seq<u32>|
                #![trigger mt76_init_events(slot_base_of(old(self).table@, dev.hw_idx), dev.mac_addr, cur, vals)]
                (bit_wait(vals, 0x80, 100_000, true) || bit_wait(vals, 0x80, 100_000, false))
                    && final(self).io.trace() == old(self).io.trace() + mt76_init_events(
                    slot_base_of(old(self).table@, dev.hw_idx), dev.mac_addr, cur, vals),
    {
        let r = self.init_hw(dev);
        self.wlog = Ghost(old(self).wlog@.push((WifiOp::Init, dev.hw_idx, r)));
        r
    }

    /// Masks the interrupts, stops the DMA engines, MCU no longer ready.
    fn deinit(&mut self, dev: &WirelessDev)
        ensures
            final(self).table@.len() == old(self).table@.len(),
            (dev.hw_idx as int) < old(self).table@.len() ==> !final(self).table@[dev.hw_idx as int].mcu_ready,
            exists|cur: u32| final(self).io.trace() == old(self).io.trace() + chip_writes(
                slot_base_of(old(self).table@, dev.hw_idx), MT_INT_MASK_CSR, seq![0u32]) + #[trigger] chip_rmw_events(
                slot_base_of(old(self).table@, dev.hw_idx), MT_WPDMA_GLO_CFG, cur, WPDMA_TX_DMA_EN | WPDMA_RX_DMA_EN, 0),
    {
        let idx = dev.hw_idx;
        let base = slot_base(&self.table, idx);
        chip_write(&mut self.io, base, MT_INT_MASK_CSR, 0);
        chip_rmw(&mut self.io, base, MT_WPDMA_GLO_CFG, WPDMA_TX_DMA_EN | WPDMA_RX_DMA_EN, 0);
        let i = idx as usize;
        if i < self.table.len() {
            let mut h = self.table[i];
            h.mcu_ready = false;
            self.table.set(i, h);
        }
    }

    /// Asks the MCU for a full scan.
    fn scan(&mut self, dev: &WirelessDev, ssid: Option<&[u8]>) -> (r: Result<(), KernelError>)
        ensures
            final(self).table@ == old(self).table@,
            r is Err ==> r == Err::<(), KernelError>(KernelError::Timeout),
            mcu_posted(slot_base_of(old(self).table@, dev.hw_idx), MCU_CMD_SCAN, 0, old(self).io.trace(),
                final(self).io.trace(), r is Ok),
    {
        let r = self.scan_hw(dev, ssid);
        self.wlog = Ghost(old(self).wlog@.push((WifiOp::Scan, dev.hw_idx, r)));
        r
    }

    /// Repeats the scan command with the abort flag.
    fn abort_scan(&mut self, dev: &WirelessDev)
        ensures
            final(self).table@ == old(self).table@,
            mcu_posted(slot_base_of(old(self).table@, dev.hw_idx), MCU_CMD_SCAN, 0x8000_0000, old(self).io.trace(),
                final(self).io.trace(), true) || mcu_posted(slot_base_of(old(self).table@, dev.hw_idx), MCU_CMD_SCAN,
                0x8000_0000, old(self).io.trace(), final(self).io.trace(), false),
    {
        let _ = self.mcu_send(dev.hw_idx, MCU_CMD_SCAN, 0x8000_0000);
    }

    /// Programs the BSSID, sets the channel through the MCU (recorded when
    /// taken), then asks it to associate.
    fn connect(&mut self, dev: &WirelessDev, req: &ConnectReq) -> (r: Result<(), KernelError>)
        ensures
            final(self).table@.len() == old(self).table@.len(),
            r is Err ==> r == Err::<(), KernelError>(KernelError::Timeout),
            r is Ok && (dev.hw_idx as int) < old(self).table@.len() ==> final(self).table@ == old(self).table@.update(
                dev.hw_idx as int, Mt76Hw { channel: req.channel, ..old(self).table@[dev.hw_idx as int] }),
            r is Ok && (dev.hw_idx as int) >= old(self).table@.len() ==> final(self).table@ == old(self).table@,
            r is Err ==> final(self).table@ == old(self).table@ || ((dev.hw_idx as int) < old(self).table@.len()
                && final(self).table@ == old(self).table@.update(
                dev.hw_idx as int, Mt76Hw { channel: req.channel, ..old(self).table@[dev.hw_idx as int] })),
            ({
                let base = slot_base_of(old(self).table@, dev.hw_idx);
                let t0 = old(self).io.trace() + bssid_writes(base, req.bssid);
                ||| mcu_posted(base, MCU_CMD_SET_CHAN, req.channel as u32, t0, final(self).io.trace(), false) && r is Err
                ||| exists|mid: Seq<IoEvent>| #![trigger mcu_posted(base, MCU_CMD_SET_CHAN, req.channel as u32, t0, mid, true)]
                    mcu_posted(base, MCU_CMD_SET_CHAN, req.channel as u32, t0, mid, true) && mcu_posted(base,
                    MCU_CMD_CONNECT, 0, mid, final(self).io.trace(), r is Ok)
            }),
    {
        let r = self.connect_hw(dev, req);
        self.wlog = Ghost(old(self).wlog@.push((WifiOp::Connect, dev.hw_idx, r)));
        r
    }

    /// Asks the MCU to disconnect with the reason.
    fn disconnect(&mut self, dev: &WirelessDev, reason: u16)
        ensures
            final(self).table@ == old(self).table@,
            mcu_posted(slot_base_of(old(self).table@, dev.hw_idx), MCU_CMD_DISCONNECT, reason as u32,
                old(self).io.trace(), final(self).io.trace(), true) || mcu_posted(slot_base_of(old(self).table@,
                dev.hw_idx), MCU_CMD_DISCONNECT, reason as u32, old(self).io.trace(), final(self).io.trace(), false),
    {
        self.disconnect_hw(dev, reason);
        self.wlog = Ghost(old(self).wlog@.push((WifiOp::Disconnect, dev.hw_idx, Ok(()))));
    }

    /// Writes the length, then the frame word by word into the TX FIFO.
    fn tx(&mut self, dev: &WirelessDev, data: &[u8]) -> (r: Result<(), KernelError>)
        ensures
            r is Ok,
            final(self).table@ == old(self).table@,
            data@.len() + 3 <= usize::MAX ==> final(self).io.trace() == old(self).io.trace() + chip_writes(
                slot_base_of(old(self).table@, dev.hw_idx), MT_TX_LEN, seq![(data@.len() % 0x1_0000_0000) as u32])
                + chip_writes(slot_base_of(old(self).table@, dev.hw_idx), MT_TX_FIFO, frame_words(data@)),
            data@.len() + 3 > usize::MAX ==> final(self).io.trace() == old(self).io.trace(),
    {
        let r = self.tx_hw(dev, data);
        self.wlog = Ghost(old(self).wlog@.push((WifiOp::Tx, dev.hw_idx, r)));
        r
    }

    /// Sets the power through the MCU (the dBm value's low byte) and
    /// records it when taken.
    fn set_tx_power(&mut self, dev: &WirelessDev, dbm: i8) -> (r: Result<(), KernelError>)
        ensures
            final(self).table@.len() == old(self).table@.len(),
            r is Err ==> r == Err::<(), KernelError>(KernelError::Timeout) && final(self).table@ == old(self).table@,
            r is Ok && (dev.hw_idx as int) < old(self).table@.len() ==> final(self).table@ == old(self).table@.update(
                dev.hw_idx as int, Mt76Hw { tx_power: dbm, ..old(self).table@[dev.hw_idx as int] }),
            mcu_posted(slot_base_of(old(self).table@, dev.hw_idx), MCU_CMD_SET_PWR, (dbm as u8) as u32,
                old(self).io.trace(), final(self).io.trace(), r is Ok),
    {
        self.mcu_send(dev.hw_idx, MCU_CMD_SET_PWR, (dbm as u8) as u32)?;
        let i = dev.hw_idx as usize;
        if i < self.table.len() {
            let mut h = self.table[i];
            h.tx_power = dbm;
            self.table.set(i, h);
        }
        Ok(())
    }

    /// The RSSI register's low byte as dBm.
    fn get_signal(&mut self, dev: &WirelessDev) -> (s: i8)
        ensures
            final(self).table@ == old(self).table@,
            exists|v: u32| #![trigger chip_reads(slot_base_of(old(self).table@, dev.hw_idx), MT_RSSI, seq![v])]
                (slot_base_of(old(self).table@, dev.hw_idx) == 0 ==> v == 0) && s == (v & 0xFF) as u8 as i8
                    && final(self).io.trace() == old(self).io.trace() + chip_reads(slot_base_of(old(self).table@,
                    dev.hw_idx), MT_RSSI, seq![v]),
    {
        let base = slot_base(&self.table, dev.hw_idx);
        let v = chip_read(&mut self.io, base, MT_RSSI);
        assert(self.io.trace() =~= old(self).io.trace() + chip_reads(base, MT_RSSI, seq![v]));
        (v & 0xFF) as u8 as i8
    }
}

/// Interrupt of the chip behind `dev`: on scan-done one result for the
/// chip's recorded channel joins the ring; the handled bits are then
/// cleared.
pub fn mt76_irq_handler<R: RegisterIo>(ops: &mut Mt76Ops<R>, dev: &mut WirelessDev)
    requires
        wdev_wf(old(dev)),
        (old(dev).hw_idx as int) < old(ops).table@.len(),
    ensures
        wdev_wf(final(dev)),
        final(ops).table@ == old(ops).table@,
        final(dev).hw_idx == old(dev).hw_idx && final(dev).state == old(dev).state,
        final(dev).scan_count == old(dev).scan_count || final(dev).scan_count == crate::wireless::wrap_add(
            old(dev).scan_count, 1),
        exists|src: u32, rssi: u32| #![trigger mt76_irq_events(slot_base_of(old(ops).table@, old(dev).hw_idx), src, rssi)]
            final(ops).io.trace() == old(ops).io.trace() + mt76_irq_events(slot_base_of(old(ops).table@,
                old(dev).hw_idx), src, rssi) && (src & INT_SCAN_DONE == 0 ==> final(dev).scan_count
                == old(dev).scan_count && final(dev).scan_results@ == old(dev).scan_results@) && (src & INT_SCAN_DONE
                != 0 ==> final(dev).scan_count == crate::wireless::wrap_add(old(dev).scan_count, 1)
                && final(dev).scan_results@[(old(dev).scan_count % 32) as int].signal_dbm == (rssi & 0xFF) as u8 as i8
                && final(dev).scan_results@[(old(dev).scan_count % 32) as int].channel.hw_value
                == old(ops).table@[old(dev).hw_idx as int].channel),
{
    let base = slot_base(&ops.table, dev.hw_idx);
    let src = chip_read(&mut ops.io, base, MT_INT_SOURCE_CSR);
    let ghost mut rv: u32 = 0;
    if src & INT_SCAN_DONE != 0 {
        let chan = ops.table[dev.hw_idx as usize].channel;
        let freq = chan_to_freq(chan);
        let v = chip_read(&mut ops.io, base, MT_RSSI);
        proof { rv = v; }
        let rssi = (v & 0xFF) as u8 as i8;
        let band = if freq < 5000 { Band::Band2GHz } else { Band::Band5GHz };
        let result = scan_result_for(chan, freq, band, rssi);
        dev.add_scan_result(result);
    }
    chip_write(&mut ops.io, base, MT_INT_SOURCE_CSR, src);
    assert(ops.io.trace() =~= old(ops).io.trace() + mt76_irq_events(base, src, rv));
}

/// A device for a new MT76 chip at `base` with address `mac`, in the first
/// free slot; `ResourceExhausted` when none is free.
pub fn mt76_probe<R: RegisterIo>(ops: &mut Mt76Ops<R>, base: u64, mac: [u8; 6]) -> (r: Result<WirelessDev, KernelError>)
    requires
        slots_wf(old(ops).table@),
        base <= CHIP_BASE_LIMIT,
    ensures
        slots_wf(final(ops).table@),
        first_unused(old(ops).table@, 0) is None <==> r is Err,
        r is Err ==> r == Err::<WirelessDev, KernelError>(KernelError::ResourceExhausted),
        r matches Ok(d) ==> wdev_wf(&d) && d.mac_addr == mac && d.state == 0
            && first_unused(old(ops).table@, 0) == Some(d.hw_idx as int)
            && final(ops).table@ == old(ops).table@.update(d.hw_idx as int, Mt76Hw::fresh_spec(base)),
{
    proof { crate::wireless::chip::lemma_first_unused(ops.table@, 0); }
    let idx = alloc_hw(&mut ops.table, base)?;
    Ok(WirelessDev::new(idx, mac))
}

} // verus!
