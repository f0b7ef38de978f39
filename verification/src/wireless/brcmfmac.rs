//! Broadcom FullMAC chips (brcmfmac): firmware does the MAC; the host
//! issues BCDC set and get commands.
use vstd::prelude::*;
use crate::clk::mmio::{IoEvent, RegisterIo};
use crate::error::KernelError;
use crate::wireless::{WifiOp, Band, ConnectReq, WirelessDev, WirelessOps, wdev_wf};
use crate::wireless::chip::{
    CHIP_BASE_LIMIT, HwSlot, MAX_CHIPS, alloc_slot, chan_to_freq, chip_read, chip_write, first_unused,
    le_word_of, scan_result_for, slot_base, slots_wf, write_frame,
    bit_wait, chip_reads, chip_writes, frame_words, le_word, slot_base_of, wait_bit,
};

verus! {

/// Register offsets from the chip's base.
pub const BRCMF_SB_INT_STATUS: u64 = 0x0020;
pub const BRCMF_SB_INT_MASK: u64 = 0x0024;
pub const BRCMF_SB_RESET: u64 = 0x0800;
pub const BRCMF_SB_IOCTRL: u64 = 0x0804;
pub const BRCMF_BCDC_CMD: u64 = 0x1000;
pub const BRCMF_BCDC_DATA: u64 = 0x1004;
pub const BRCMF_BCDC_STATUS: u64 = 0x1008;
pub const BRCMF_TX_FIFO: u64 = 0x2000;
pub const BRCMF_TX_LEN: u64 = 0x2004;
pub const BRCMF_RX_FIFO: u64 = 0x2100;
pub const BRCMF_RX_STATUS: u64 = 0x2104;
pub const BRCMF_CHAN_CTRL: u64 = 0x3000;
pub const BRCMF_RSSI: u64 = 0x3004;
pub const BRCMF_MAC_ADDR_LO: u64 = 0x3010;
pub const BRCMF_MAC_ADDR_HI: u64 = 0x3014;
pub const BRCMF_BSSID_LO: u64 = 0x3020;
pub const BRCMF_BSSID_HI: u64 = 0x3024;
pub const BRCMF_PWR_CTRL: u64 = 0x3030;
pub const BRCMF_FW_READY: u64 = 0x3100;

pub const SB_INT_FW_READY: u32 = 0x1;
pub const SB_INT_TX_DONE: u32 = 0x2;
pub const SB_INT_RX: u32 = 0x4;
pub const SB_INT_SCAN_DONE: u32 = 0x8;
pub const SB_INT_DISASSOC: u32 = 0x10;

pub const BCDC_CMD_SET: u32 = 0x0002_0000;
pub const BCDC_CMD_SCAN: u32 = 0x0082;
pub const BCDC_CMD_JOIN: u32 = 0x001A;
pub const BCDC_CMD_DISASSOC: u32 = 0x0069;
pub const BCDC_CMD_SET_CHAN: u32 = 0x0030;
pub const BCDC_CMD_SET_PWR: u32 = 0x0021;

/// State of one brcmfmac chip.
#[derive(Clone, Copy)]
pub struct BrcmfHw {
    pub base: u64,
    pub fw_ready: bool,
    pub channel: u16,
    pub tx_power: i8,
    pub used: bool,
}

impl BrcmfHw {
    /// A free slot: channel 1, 20 dBm.
    pub fn empty() -> (h: BrcmfHw)
        ensures
            h == Self::empty_spec(),
    {
        BrcmfHw { base: 0, fw_ready: false, channel: 1, tx_power: 20, used: false }
    }

    pub open spec fn empty_spec() -> BrcmfHw {
        BrcmfHw { base: 0, fw_ready: false, channel: 1, tx_power: 20, used: false }
    }
}

impl HwSlot for BrcmfHw {
    open spec fn is_used(&self) -> bool {
        self.used
    }

    open spec fn base_of(&self) -> u64 {
        self.base
    }

    open spec fn fresh_spec(base: u64) -> BrcmfHw {
        BrcmfHw { base, used: true, ..BrcmfHw::empty_spec() }
    }

    fn used(&self) -> (b: bool) {
        self.used
    }

    fn base(&self) -> (b: u64) {
        self.base
    }

    fn fresh(base: u64) -> (s: BrcmfHw) {
        BrcmfHw { base, used: true, ..BrcmfHw::empty() }
    }
}

/// Takes a free slot for a chip at `base` (see `alloc_slot`).
pub fn alloc_hw(table: &mut Vec<BrcmfHw>, base: u64) -> (r: Result<u8, KernelError>)
    requires
        slots_wf(old(table)@),
        base <= CHIP_BASE_LIMIT,
    ensures
        slots_wf(final(table)@),
        first_unused(old(table)@, 0) is None ==> r == Err::<u8, KernelError>(KernelError::ResourceExhausted)
            && final(table)@ == old(table)@,
        first_unused(old(table)@, 0) matches Some(k) ==> r == Ok::<u8, KernelError>(k as u8)
            && final(table)@ == old(table)@.update(k, BrcmfHw::fresh_spec(base)),
{
    alloc_slot(table, base)
}

/// The brcmfmac driver: its slot table and the register access to its chips.
pub struct BrcmfOps<R: RegisterIo> {
    pub table: Vec<BrcmfHw>,
    pub io: R,
    /// The operations asked of it, in order, with their results.
    pub wlog: Ghost<Seq<(WifiOp, u8, Result<(), KernelError>)>>,
}

impl<R: RegisterIo> BrcmfOps<R> {
    /// Four free slots.
    pub fn new(io: R) -> (o: BrcmfOps<R>)
        ensures
            slots_wf(o.table@),
            forall|i: int| 0 <= i < MAX_CHIPS ==> #[trigger] o.table@[i] == BrcmfHw::empty_spec(),
    {
        let mut table: Vec<BrcmfHw> = Vec::new();
        let mut i: usize = 0;
        while i < MAX_CHIPS
            invariant
                i <= MAX_CHIPS,
                table@.len() == i,
                forall|k: int| 0 <= k < i ==> #[trigger] table@[k] == BrcmfHw::empty_spec(),
            decreases MAX_CHIPS - i,
        {
            table.push(BrcmfHw::empty());
            i = i + 1;
        }
        BrcmfOps { table, io, wlog: Ghost(Seq::empty()) }
    }

    /// Issues BCDC set command `cmd` with `val` once the firmware takes
    /// commands (polled up to 5000 times); `Timeout` otherwise.
    fn bcdc_set(&mut self, hw_idx: u8, cmd: u32, val: u32) -> (r: Result<(), KernelError>)
        ensures
            final(self).table@ == old(self).table@,
            r is Err ==> r == Err::<(), KernelError>(KernelError::Timeout),
            bcdc_posted(slot_base_of(old(self).table@, hw_idx), cmd, val, old(self).io.trace(), final(self).io.trace(),
                r is Ok),
    {
        let base = slot_base(&self.table, hw_idx);
        if wait_bit(&mut self.io, base, BRCMF_BCDC_STATUS, 0x01, 5000) {
            chip_write(&mut self.io, base, BRCMF_BCDC_CMD, cmd | BCDC_CMD_SET);
            chip_write(&mut self.io, base, BRCMF_BCDC_DATA, val);
            proof {
                let vals = choose|vals: Seq<u32>| bit_wait(vals, 0x01, 5000, true) && #[trigger] chip_reads(base,
                    BRCMF_BCDC_STATUS, vals) == chip_reads(base, BRCMF_BCDC_STATUS, vals) && self.io.trace()
                    == old(self).io.trace() + chip_reads(base, BRCMF_BCDC_STATUS, vals) + chip_writes(base,
                    BRCMF_BCDC_CMD, seq![cmd | BCDC_CMD_SET]) + chip_writes(base, BRCMF_BCDC_DATA, seq![val]);
                assert(self.io.trace() =~= old(self).io.trace() + bcdc_set_events(base, cmd, val, vals, true));
            }
            Ok(())
        } else {
            proof {
                let vals = choose|vals: Seq<u32>| bit_wait(vals, 0x01, 5000, false) && #[trigger] chip_reads(base,
                    BRCMF_BCDC_STATUS, vals) == chip_reads(base, BRCMF_BCDC_STATUS, vals) && self.io.trace()
                    == old(self).io.trace() + chip_reads(base, BRCMF_BCDC_STATUS, vals);
                assert(self.io.trace() =~= old(self).io.trace() + bcdc_set_events(base, cmd, val, vals, false));
            }
            Err(KernelError::Timeout)
        }
    }

    /// Issues BCDC get command `cmd` once the firmware takes commands
    /// (polled up to 5000 times) and returns the data word; `Timeout`
    /// otherwise.
    pub fn bcdc_get(&mut self, hw_idx: u8, cmd: u32) -> (r: Result<u32, KernelError>)
        ensures
            final(self).table@ == old(self).table@,
            r is Err ==> r == Err::<u32, KernelError>(KernelError::Timeout),
            exists|vals: Seq<u32>, v: u32| #![trigger bcdc_get_events(slot_base_of(old(self).table@, hw_idx), cmd, vals, r is Ok, v)]
                bit_wait(vals, 0x01, 5000, r is Ok) && (slot_base_of(old(self).table@, hw_idx) == 0 ==> v == 0)
                    && (r matches Ok(x) ==> x == v) && final(self).io.trace() == old(self).io.trace() + bcdc_get_events(
                    slot_base_of(old(self).table@, hw_idx), cmd, vals, r is Ok, v),
    {
        let base = slot_base(&self.table, hw_idx);
        if wait_bit(&mut self.io, base, BRCMF_BCDC_STATUS, 0x01, 5000) {
            let ghost t1 = self.io.trace();
            chip_write(&mut self.io, base, BRCMF_BCDC_CMD, cmd);
            let v = chip_read(&mut self.io, base, BRCMF_BCDC_DATA);
            let r: Result<u32, KernelError> = Ok(v);
            proof {
                let vals = choose|vals: Seq<u32>| bit_wait(vals, 0x01, 5000, true) && #[trigger] chip_reads(base,
                    BRCMF_BCDC_STATUS, vals) == chip_reads(base, BRCMF_BCDC_STATUS, vals) && t1 == old(self).io.trace()
                    + chip_reads(base, BRCMF_BCDC_STATUS, vals);
                assert(self.io.trace() =~= old(self).io.trace() + bcdc_get_events(base, cmd, vals, r is Ok, v));
            }
            r
        } else {
            proof {
                let vals = choose|vals: Seq<u32>| bit_wait(vals, 0x01, 5000, false) && #[trigger] chip_reads(base,
                    BRCMF_BCDC_STATUS, vals) == chip_reads(base, BRCMF_BCDC_STATUS, vals) && self.io.trace()
                    == old(self).io.trace() + chip_reads(base, BRCMF_BCDC_STATUS, vals);
                let r: Result<u32, KernelError> = Err(KernelError::Timeout);
                assert(self.io.trace() =~= old(self).io.trace() + bcdc_get_events(base, cmd, vals, r is Ok, 0));
            }
            Err(KernelError::Timeout)
        }
    }
}

/// The accesses of BCDC set command `cmd` with `val` on the chip at
/// `base`: the status reads `vals` of the wait, then, when the firmware
/// took commands, the command (with the set flag) and the value.
pub open spec fn bcdc_set_events(base: u64, cmd: u32, val: u32, vals: Seq<u32>, ok: bool) -> Seq<IoEvent> {
    chip_reads(base, BRCMF_BCDC_STATUS, vals) + if ok {
        chip_writes(base, BRCMF_BCDC_CMD, seq![cmd | BCDC_CMD_SET]) + chip_writes(base, BRCMF_BCDC_DATA, seq![val])
    } else {
        seq![]
    }
}

/// Whether history `after` is `before` followed by BCDC set command `cmd`
/// with `val` (waiting at most 5000 polls), which succeeded exactly when
/// `ok`.
pub open spec fn bcdc_posted(base: u64, cmd: u32, val: u32, before: Seq<IoEvent>, after: Seq<IoEvent>, ok: bool) -> bool {
    exists|vals: Seq<u32>| #![trigger bcdc_set_events(base, cmd, val, vals, ok)]
        bit_wait(vals, 0x01, 5000, ok) && after == before + bcdc_set_events(base, cmd, val, vals, ok)
}

/// The accesses of BCDC get command `cmd` on the chip at `base`: the
/// status reads `vals` of the wait, then, when the firmware took commands,
/// the command and the read of the data word giving `v`.
pub open spec fn bcdc_get_events(base: u64, cmd: u32, vals: Seq<u32>, ok: bool, v: u32) -> Seq<IoEvent> {
    chip_reads(base, BRCMF_BCDC_STATUS, vals) + if ok {
        chip_writes(base, BRCMF_BCDC_CMD, seq![cmd]) + chip_reads(base, BRCMF_BCDC_DATA, seq![v])
    } else {
        seq![]
    }
}

/// The accesses of `init` on the chip at `base` with address `mac`: the
/// core released from reset with its clock on, the firmware wait whose
/// reads gave `vals`, the address and the interrupt mask.
pub open spec fn brcmf_init_events(base: u64, mac: [u8; 6], vals: Seq<u32>) -> Seq<IoEvent> {
    chip_writes(base, BRCMF_SB_RESET, seq![0u32]) + chip_writes(base, BRCMF_SB_IOCTRL, seq![0x03u32]) + chip_reads(
        base, BRCMF_FW_READY, vals) + chip_writes(base, BRCMF_MAC_ADDR_LO, seq![le_word(mac@[0], mac@[1], mac@[2],
        mac@[3])]) + chip_writes(base, BRCMF_MAC_ADDR_HI, seq![le_word(mac@[4], mac@[5], 0, 0)]) + chip_writes(base,
        BRCMF_SB_INT_MASK, seq![SB_INT_FW_READY | SB_INT_TX_DONE | SB_INT_RX | SB_INT_SCAN_DONE | SB_INT_DISASSOC])
}

/// The writes of BSSID `b` to the chip at `base`: its first four bytes,
/// then its last two, as little-endian words.
pub open spec fn brcmf_bssid_writes(base: u64, b: [u8; 6]) -> Seq<IoEvent> {
    chip_writes(base, BRCMF_BSSID_LO, seq![le_word(b@[0], b@[1], b@[2], b@[3])]) + chip_writes(base, BRCMF_BSSID_HI,
        seq![le_word(b@[4], b@[5], 0, 0)])
}

/// The accesses of an interrupt on the chip at `base` whose status read
/// gave `src` and, on scan-done, whose RSSI read gave `rssi`: the reads,
/// then the status bits written back to clear them.
pub open spec fn brcmf_irq_events(base: u64, src: u32, rssi: u32) -> Seq<IoEvent> {
    chip_reads(base, BRCMF_SB_INT_STATUS, seq![src]) + (if src & SB_INT_SCAN_DONE != 0 {
        chip_reads(base, BRCMF_RSSI, seq![rssi])
    } else {
        seq![]
    }) + chip_writes(base, BRCMF_SB_INT_STATUS, seq![src])
}

impl<R: RegisterIo> BrcmfOps<R> {
    /// The hardware side of `init`.
    fn init_hw(&mut self, dev: &WirelessDev) -> (r: Result<(), KernelError>)
        ensures
            r is Ok,
            final(self).table@.len() == old(self).table@.len(),
            (dev.hw_idx as int) < old(self).table@.len() ==> final(self).table@[dev.hw_idx as int].fw_ready,
            exists|vals: Seq<u32>| #![trigger brcmf_init_events(slot_base_of(old(self).table@, dev.hw_idx), dev.mac_addr, vals)]
                (bit_wait(vals, 0x01, 100_000, true) || bit_wait(vals, 0x01, 100_000, false))
                    && final(self).io.trace() == old(self).io.trace() + brcmf_init_events(slot_base_of(old(self).table@, dev.hw_idx), dev.mac_addr, vals),
    {
        let idx = dev.hw_idx;
        let base = slot_base(&self.table, idx);
        chip_write(&mut self.io, base, BRCMF_SB_RESET, 0);
        chip_write(&mut self.io, base, BRCMF_SB_IOCTRL, 0x03);
        let ghost t1 = self.io.trace();
        let hit = wait_bit(&mut self.io, base, BRCMF_FW_READY, 0x01, 100_000);
        let ghost t2 = self.io.trace();
        let mac = dev.mac_addr;
        chip_write(&mut self.io, base, BRCMF_MAC_ADDR_LO, le_word_of(mac[0], mac[1], mac[2], mac[3]));
        chip_write(&mut self.io, base, BRCMF_MAC_ADDR_HI, le_word_of(mac[4], mac[5], 0, 0));
        chip_write(&mut self.io, base, BRCMF_SB_INT_MASK,
            SB_INT_FW_READY | SB_INT_TX_DONE | SB_INT_RX | SB_INT_SCAN_DONE | SB_INT_DISASSOC);
        proof {
            let vals = choose|vals: Seq<u32>| bit_wait(vals, 0x01, 100_000, hit) && #[trigger] chip_reads(base,
                BRCMF_FW_READY, vals) == chip_reads(base, BRCMF_FW_READY, vals) && t2 == t1 + chip_reads(base,
                BRCMF_FW_READY, vals);
            assert(self.io.trace() =~= old(self).io.trace() + brcmf_init_events(base, mac, vals));
        }
        let i = idx as usize;
        if i < self.table.len() {
            let mut h = self.table[i];
            h.fw_ready = true;
            self.table.set(i, h);
        }
        Ok(())
    }

    /// The hardware side of `scan`.
    fn scan_hw(&mut self, dev: &WirelessDev, ssid: Option<&[u8]>) -> (r: Result<(), KernelError>)
        ensures
            final(self).table@ == old(self).table@,
            r is Err ==> r == Err::<(), KernelError>(KernelError::Timeout),
            bcdc_posted(slot_base_of(old(self).table@, dev.hw_idx), BCDC_CMD_SCAN, 1, old(self).io.trace(), final(self).io.trace(), r is Ok),
    {
        self.bcdc_set(dev.hw_idx, BCDC_CMD_SCAN, 1)
    }

    /// The hardware side of `connect`.
    fn connect_hw(&mut self, dev: &WirelessDev, req: &ConnectReq) -> (r: Result<(), KernelError>)
        ensures
            final(self).table@.len() == old(self).table@.len(),
            r is Err ==> r == Err::<(), KernelError>(KernelError::Timeout),
            r is Ok && (dev.hw_idx as int) < old(self).table@.len() ==> final(self).table@ == old(self).table@.update(
                dev.hw_idx as int, BrcmfHw { channel: req.channel, ..old(self).table@[dev.hw_idx as int] }),
            r is Ok && (dev.hw_idx as int) >= old(self).table@.len() ==> final(self).table@ == old(self).table@,
            r is Err ==> final(self).table@ == old(self).table@ || ((dev.hw_idx as int) < old(self).table@.len()
                && final(self).table@ == old(self).table@.update(
                dev.hw_idx as int, BrcmfHw { channel: req.channel, ..old(self).table@[dev.hw_idx as int] })),
            ({
                let base = slot_base_of(old(self).table@, dev.hw_idx);
                let t0 = old(self).io.trace() + brcmf_bssid_writes(base, req.bssid);
                ||| bcdc_posted(base, BCDC_CMD_SET_CHAN, req.channel as u32, t0, final(self).io.trace(), false) && r is Err
                ||| exists|mid: Seq<IoEvent>| #![trigger bcdc_posted(base, BCDC_CMD_SET_CHAN, req.channel as u32, t0, mid, true)]
                    bcdc_posted(base, BCDC_CMD_SET_CHAN, req.channel as u32, t0, mid, true) && bcdc_posted(base,
                    BCDC_CMD_JOIN, 1, mid, final(self).io.trace(), r is Ok)
            }),
    {
        let base = slot_base(&self.table, dev.hw_idx);
        let b = req.bssid;
        chip_write(&mut self.io, base, BRCMF_BSSID_LO, le_word_of(b[0], b[1], b[2], b[3]));
        chip_write(&mut self.io, base, BRCMF_BSSID_HI, le_word_of(b[4], b[5], 0, 0));
        assert(self.io.trace() =~= old(self).io.trace() + brcmf_bssid_writes(base, req.bssid));
        let ghost mid = self.io.trace();
        self.bcdc_set(dev.hw_idx, BCDC_CMD_SET_CHAN, req.channel as u32)?;
        let ghost mid2 = self.io.trace();
        assert(bcdc_posted(base, BCDC_CMD_SET_CHAN, req.channel as u32, mid, mid2, true));
        let i = dev.hw_idx as usize;
        if i < self.table.len() {
            let mut h = self.table[i];
            h.channel = req.channel;
            self.table.set(i, h);
        }
        self.bcdc_set(dev.hw_idx, BCDC_CMD_JOIN, 1)
    }

    /// The hardware side of `disconnect`.
    fn disconnect_hw(&mut self, dev: &WirelessDev, reason: u16)
        ensures
            final(self).table@ == old(self).table@,
            bcdc_posted(slot_base_of(old(self).table@, dev.hw_idx), BCDC_CMD_DISASSOC, reason as u32, old(self).io.trace(), final(self).io.trace(), true)
                || bcdc_posted(slot_base_of(old(self).table@, dev.hw_idx), BCDC_CMD_DISASSOC, reason as u32, old(self).io.trace(), final(self).io.trace(),
                false),
    {
        let _ = self.bcdc_set(dev.hw_idx, BCDC_CMD_DISASSOC, reason as u32);
    }

    /// The hardware side of `tx`.
    fn tx_hw(&mut self, dev: &WirelessDev, data: &[u8]) -> (r: Result<(), KernelError>)
        ensures
            r is Ok,
            final(self).table@ == old(self).table@,
            data@.len() + 3 <= usize::MAX ==> final(self).io.trace() == old(self).io.trace() + chip_writes(slot_base_of(old(self).table@, dev.hw_idx),
                BRCMF_TX_LEN, seq![(data@.len() % 0x1_0000_0000) as u32]) + chip_writes(slot_base_of(old(self).table@, dev.hw_idx), BRCMF_TX_FIFO,
                frame_words(data@)),
            data@.len() + 3 > usize::MAX ==> final(self).io.trace() == old(self).io.trace(),
    {
        let base = slot_base(&self.table, dev.hw_idx);
        if data.len() <= usize::MAX - 3 {
            write_frame(&mut self.io, base, BRCMF_TX_LEN, BRCMF_TX_FIFO, data);
        }
        Ok(())
    }
}

impl<R: RegisterIo> WirelessOps for BrcmfOps<R> {
    closed spec fn wcalls(&self) -> Seq<(WifiOp, u8, Result<(), KernelError>)> {
        self.wlog@
    }

    /// Releases the core from reset with its clock on, waits (boundedly)
    /// for the firmware, programs the MAC address, unmasks the interrupts
    /// and marks the firmware ready.
    fn init(&mut self, dev: &WirelessDev) -> (r: Result<(), KernelError>)
        ensures
            r is Ok,
            final(self).table@.len() == old(self).table@.len(),
            (dev.hw_idx as int) < old(self).table@.len() ==> final(self).table@[dev.hw_idx as int].fw_ready,
            exists|vals: Seq<u32>| #![trigger brcmf_init_events(slot_base_of(old(self).table@, dev.hw_idx), dev.mac_addr, vals)]
                (bit_wait(vals, 0x01, 100_000, true) || bit_wait(vals, 0x01, 100_000, false))
                    && final(self).io.trace() == old(self).io.trace() + brcmf_init_events(slot_base_of(old(self).table@, dev.hw_idx), dev.mac_addr, vals),
    {
        let r = self.init_hw(dev);
        self.wlog = Ghost(old(self).wlog@.push((WifiOp::Init, dev.hw_idx, r)));
        r
    }

    /// Masks the interrupts, holds the core in reset, firmware no longer
    /// ready.
    fn deinit(&mut self, dev: &WirelessDev)
        ensures
            final(self).table@.len() == old(self).table@.len(),
            (dev.hw_idx as int) < old(self).table@.len() ==> !final(self).table@[dev.hw_idx as int].fw_ready,
            final(self).io.trace() == old(self).io.trace() + chip_writes(slot_base_of(old(self).table@, dev.hw_idx), BRCMF_SB_INT_MASK, seq![0u32])
                + chip_writes(slot_base_of(old(self).table@, dev.hw_idx), BRCMF_SB_RESET, seq![0x01u32]),
    {
        let idx = dev.hw_idx;
        let base = slot_base(&self.table, idx);
        chip_write(&mut self.io, base, BRCMF_SB_INT_MASK, 0);
        chip_write(&mut self.io, base, BRCMF_SB_RESET, 0x01);
        let i = idx as usize;
        if i < self.table.len() {
            let mut h = self.table[i];
            h.fw_ready = false;
            self.table.set(i, h);
        }
    }

    /// Starts a scan.
    fn scan(&mut self, dev: &WirelessDev, ssid: Option<&[u8]>) -> (r: Result<(), KernelError>)
        ensures
            final(self).table@ == old(self).table@,
            r is Err ==> r == Err::<(), KernelError>(KernelError::Timeout),
            bcdc_posted(slot_base_of(old(self).table@, dev.hw_idx), BCDC_CMD_SCAN, 1, old(self).io.trace(), final(self).io.trace(), r is Ok),
    {
        let r = self.scan_hw(dev, ssid);
        self.wlog = Ghost(old(self).wlog@.push((WifiOp::Scan, dev.hw_idx, r)));
        r
    }

    /// Stops the scan.
    fn abort_scan(&mut self, dev: &WirelessDev)
        ensures
            final(self).table@ == old(self).table@,
            bcdc_posted(slot_base_of(old(self).table@, dev.hw_idx), BCDC_CMD_SCAN, 0, old(self).io.trace(), final(self).io.trace(), true) || bcdc_posted(slot_base_of(old(self).table@, dev.hw_idx),
                BCDC_CMD_SCAN, 0, old(self).io.trace(), final(self).io.trace(), false),
    {
        let _ = self.bcdc_set(dev.hw_idx, BCDC_CMD_SCAN, 0);
    }

    /// Programs the BSSID, sets the channel (recorded when taken), then
    /// joins.
    fn connect(&mut self, dev: &WirelessDev, req: &ConnectReq) -> (r: Result<(), KernelError>)
        ensures
            final(self).table@.len() == old(self).table@.len(),
            r is Err ==> r == Err::<(), KernelError>(KernelError::Timeout),
            r is Ok && (dev.hw_idx as int) < old(self).table@.len() ==> final(self).table@ == old(self).table@.update(
                dev.hw_idx as int, BrcmfHw { channel: req.channel, ..old(self).table@[dev.hw_idx as int] }),
            r is Ok && (dev.hw_idx as int) >= old(self).table@.len() ==> final(self).table@ == old(self).table@,
            r is Err ==> final(self).table@ == old(self).table@ || ((dev.hw_idx as int) < old(self).table@.len()
                && final(self).table@ == old(self).table@.update(
                dev.hw_idx as int, BrcmfHw { channel: req.channel, ..old(self).table@[dev.hw_idx as int] })),
            ({
                let base = slot_base_of(old(self).table@, dev.hw_idx);
                let t0 = old(self).io.trace() + brcmf_bssid_writes(base, req.bssid);
                ||| bcdc_posted(base, BCDC_CMD_SET_CHAN, req.channel as u32, t0, final(self).io.trace(), false) && r is Err
                ||| exists|mid: Seq<IoEvent>| #![trigger bcdc_posted(base, BCDC_CMD_SET_CHAN, req.channel as u32, t0, mid, true)]
                    bcdc_posted(base, BCDC_CMD_SET_CHAN, req.channel as u32, t0, mid, true) && bcdc_posted(base,
                    BCDC_CMD_JOIN, 1, mid, final(self).io.trace(), r is Ok)
            }),
    {
        let r = self.connect_hw(dev, req);
        self.wlog = Ghost(old(self).wlog@.push((WifiOp::Connect, dev.hw_idx, r)));
        r
    }

    /// Disassociates with the reason.
    fn disconnect(&mut self, dev: &WirelessDev, reason: u16)
        ensures
            final(self).table@ == old(self).table@,
            bcdc_posted(slot_base_of(old(self).table@, dev.hw_idx), BCDC_CMD_DISASSOC, reason as u32, old(self).io.trace(), final(self).io.trace(), true)
                || bcdc_posted(slot_base_of(old(self).table@, dev.hw_idx), BCDC_CMD_DISASSOC, reason as u32, old(self).io.trace(), final(self).io.trace(),
                false),
    {
        self.disconnect_hw(dev, reason);
        self.wlog = Ghost(old(self).wlog@.push((WifiOp::Disconnect, dev.hw_idx, Ok(()))));
    }

    /// Writes the length, then the frame word by word into the TX FIFO.
    fn tx(&mut self, dev: &WirelessDev, data: &[u8]) -> (r: Result<(), KernelError>)
        ensures
            r is Ok,
            final(self).table@ == old(self).table@,
            data@.len() + 3 <= usize::MAX ==> final(self).io.trace() == old(self).io.trace() + chip_writes(slot_base_of(old(self).table@, dev.hw_idx),
                BRCMF_TX_LEN, seq![(data@.len() % 0x1_0000_0000) as u32]) + chip_writes(slot_base_of(old(self).table@, dev.hw_idx), BRCMF_TX_FIFO,
                frame_words(data@)),
            data@.len() + 3 > usize::MAX ==> final(self).io.trace() == old(self).io.trace(),
    {
        let r = self.tx_hw(dev, data);
        self.wlog = Ghost(old(self).wlog@.push((WifiOp::Tx, dev.hw_idx, r)));
        r
    }

    /// Sets the power (the dBm value's low byte) and records it when taken.
    fn set_tx_power(&mut self, dev: &WirelessDev, dbm: i8) -> (r: Result<(), KernelError>)
        ensures
            final(self).table@.len() == old(self).table@.len(),
            r is Err ==> r == Err::<(), KernelError>(KernelError::Timeout) && final(self).table@ == old(self).table@,
            r is Ok && (dev.hw_idx as int) < old(self).table@.len() ==> final(self).table@ == old(self).table@.update(
                dev.hw_idx as int, BrcmfHw { tx_power: dbm, ..old(self).table@[dev.hw_idx as int] }),
            bcdc_posted(slot_base_of(old(self).table@, dev.hw_idx), BCDC_CMD_SET_PWR, (dbm as u8) as u32, old(self).io.trace(), final(self).io.trace(),
                r is Ok),
    {
        self.bcdc_set(dev.hw_idx, BCDC_CMD_SET_PWR, (dbm as u8) as u32)?;
        let i = dev.hw_idx as usize;
        if i < self.table.len() {
            let mut h = self.table[i];
            h.tx_power = dbm;
            self.table.set(i, h);
        }
        Ok(())
    }

    /// The RSSI register's low byte as dBm.
    fn get_signal(&mut self, dev: &WirelessDev) -> (s: i8)
        ensures
            final(self).table@ == old(self).table@,
            exists|v: u32| #![trigger chip_reads(slot_base_of(old(self).table@, dev.hw_idx), BRCMF_RSSI, seq![v])]
                (slot_base_of(old(self).table@, dev.hw_idx) == 0 ==> v == 0) && s == (v & 0xFF) as u8 as i8
                    && final(self).io.trace() == old(self).io.trace() + chip_reads(slot_base_of(old(self).table@, dev.hw_idx), BRCMF_RSSI, seq![v]),
    {
        let base = slot_base(&self.table, dev.hw_idx);
        let v = chip_read(&mut self.io, base, BRCMF_RSSI);
        assert(self.io.trace() =~= old(self).io.trace() + chip_reads(base, BRCMF_RSSI, seq![v]));
        (v & 0xFF) as u8 as i8
    }
}

/// Interrupt of the chip behind `dev`: on scan-done one result for the
/// chip's recorded channel joins the ring; the handled bits are then
/// cleared.
pub fn brcmf_irq_handler<R: RegisterIo>(ops: &mut BrcmfOps<R>, dev: &mut WirelessDev)
    requires
        wdev_wf(old(dev)),
        (old(dev).hw_idx as int) < old(ops).table@.len(),
    ensures
        wdev_wf(final(dev)),
        final(ops).table@ == old(ops).table@,
        final(dev).hw_idx == old(dev).hw_idx && final(dev).state == old(dev).state,
        final(dev).scan_count == old(dev).scan_count || final(dev).scan_count == crate::wireless::wrap_add(
            old(dev).scan_count, 1),
        exists|src: u32, rssi: u32| #![trigger brcmf_irq_events(slot_base_of(old(ops).table@, old(dev).hw_idx), src, rssi)]
            final(ops).io.trace() == old(ops).io.trace() + brcmf_irq_events(slot_base_of(old(ops).table@, old(dev).hw_idx), src, rssi) && (src & SB_INT_SCAN_DONE
                == 0 ==> final(dev).scan_count == old(dev).scan_count && final(dev).scan_results@
                == old(dev).scan_results@) && (src & SB_INT_SCAN_DONE != 0 ==> final(dev).scan_count
                == crate::wireless::wrap_add(old(dev).scan_count, 1) && final(dev).scan_results@[(old(dev).scan_count
                % 32) as int].signal_dbm == (rssi & 0xFF) as u8 as i8 && final(dev).scan_results@[(old(dev).scan_count
                % 32) as int].channel.hw_value == old(ops).table@[old(dev).hw_idx as int].channel),
{
    let base = slot_base(&ops.table, dev.hw_idx);
    let src = chip_read(&mut ops.io, base, BRCMF_SB_INT_STATUS);
    let ghost mut rv: u32 = 0;
    if src & SB_INT_SCAN_DONE != 0 {
        let chan = ops.table[dev.hw_idx as usize].channel;
        let freq = chan_to_freq(chan);
        let v = chip_read(&mut ops.io, base, BRCMF_RSSI);
        proof { rv = v; }
        let rssi = (v & 0xFF) as u8 as i8;
        let band = if freq < 5000 { Band::Band2GHz } else { Band::Band5GHz };
        let result = scan_result_for(chan, freq, band, rssi);
        dev.add_scan_result(result);
    }
    chip_write(&mut ops.io, base, BRCMF_SB_INT_STATUS, src);
    assert(ops.io.trace() =~= old(ops).io.trace() + brcmf_irq_events(base, src, rv));
}

/// A device for a new brcmfmac chip at `base` with address `mac`, in the first
/// free slot; `ResourceExhausted` when none is free.
pub fn brcmfmac_probe<R: RegisterIo>(ops: &mut BrcmfOps<R>, base: u64, mac: [u8; 6]) -> (r: Result<WirelessDev, KernelError>)
    requires
        slots_wf(old(ops).table@),
        base <= CHIP_BASE_LIMIT,
    ensures
        slots_wf(final(ops).table@),
        first_unused(old(ops).table@, 0) is None <==> r is Err,
        r is Err ==> r == Err::<WirelessDev, KernelError>(KernelError::ResourceExhausted),
        r matches Ok(d) ==> wdev_wf(&d) && d.mac_addr == mac && d.state == 0
            && first_unused(old(ops).table@, 0) == Some(d.hw_idx as int)
            && final(ops).table@ == old(ops).table@.update(d.hw_idx as int, BrcmfHw::fresh_spec(base)),
{
    proof { crate::wireless::chip::lemma_first_unused(ops.table@, 0); }
    let idx = alloc_hw(&mut ops.table, base)?;
    Ok(WirelessDev::new(idx, mac))
}

} // verus!
