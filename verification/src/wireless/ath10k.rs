//! Qualcomm Atheros ath10k chips (QCA6174 family): the host drives the
//! firmware through WMI commands, one command word and one parameter word.
use vstd::prelude::*;
use crate::clk::mmio::{IoEvent, RegisterIo};
use crate::error::KernelError;
use crate::wireless::{WifiOp, ConnectReq, WirelessDev, WirelessOps, wdev_wf};
use crate::wireless::chip::{
    CHIP_BASE_LIMIT, HwSlot, MAX_CHIPS, alloc_slot, band_of, chan_freq, chan_to_freq, chip_read, chip_write,
    le_word_of, scan_result_for, slot_base, slots_wf, write_frame,
    bit_wait, chip_reads, chip_writes, frame_words, le_word, slot_base_of, wait_bit,
};

verus! {

/// Register offsets from the chip's base.
pub const REG_SOC_RESET: u64 = 0x0000;
pub const REG_SOC_STATUS: u64 = 0x0004;
pub const REG_FW_INDICATOR: u64 = 0x0008;
pub const REG_WMI_CMD: u64 = 0x0200;
pub const REG_WMI_DATA: u64 = 0x0204;
pub const REG_WMI_STATUS: u64 = 0x0208;
pub const REG_IRQ_STATUS: u64 = 0x0300;
pub const REG_IRQ_MASK: u64 = 0x0304;
pub const REG_IRQ_CLEAR: u64 = 0x0308;
pub const REG_RSSI: u64 = 0x0400;
pub const REG_CHAN: u64 = 0x0404;
pub const REG_TX_FIFO: u64 = 0x0500;
pub const REG_TX_LEN: u64 = 0x0504;

pub const SOC_STATUS_READY: u32 = 0x1;
pub const FW_IND_READY: u32 = 0x1;
pub const IRQ_FW_READY: u32 = 0x1;
pub const IRQ_RX: u32 = 0x2;
pub const IRQ_TX_DONE: u32 = 0x4;
pub const IRQ_SCAN_DONE: u32 = 0x8;
pub const IRQ_DISASSOC: u32 = 0x10;

pub const WMI_START_SCAN_CMDID: u32 = 0x9000;
pub const WMI_STOP_SCAN_CMDID: u32 = 0x9001;
pub const WMI_CONNECT_CMDID: u32 = 0x9010;
pub const WMI_DISCONNECT_CMDID: u32 = 0x9011;
pub const WMI_SET_TX_PWR_CMDID: u32 = 0x9020;

/// State of one ath10k chip.
#[derive(Clone, Copy)]
pub struct Ath10kHw {
    pub base: u64,
    pub fw_version: u32,
    pub fw_ready: bool,
    pub channel_mhz: u32,
    pub tx_power_dbm: i8,
    pub used: bool,
}

impl Ath10kHw {
    /// A free slot: channel 2412 MHz, 20 dBm.
    pub fn empty() -> (h: Ath10kHw)
        ensures
            h == Self::empty_spec(),
    {
        Ath10kHw { base: 0, fw_version: 0, fw_ready: false, channel_mhz: 2412, tx_power_dbm: 20, used: false }
    }

    pub open spec fn empty_spec() -> Ath10kHw {
        Ath10kHw { base: 0, fw_version: 0, fw_ready: false, channel_mhz: 2412, tx_power_dbm: 20, used: false }
    }
}

impl HwSlot for Ath10kHw {
    open spec fn is_used(&self) -> bool {
        self.used
    }

    open spec fn base_of(&self) -> u64 {
        self.base
    }

    open spec fn fresh_spec(base: u64) -> Ath10kHw {
        Ath10kHw { base, used: true, ..Ath10kHw::empty_spec() }
    }

    fn used(&self) -> (b: bool) {
        self.used
    }

    fn base(&self) -> (b: u64) {
        self.base
    }

    fn fresh(base: u64) -> (s: Ath10kHw) {
        Ath10kHw { base, used: true, ..Ath10kHw::empty() }
    }
}

/// Takes a free slot for a chip at `base` (see `alloc_slot`).
pub fn alloc_hw(table: &mut Vec<Ath10kHw>, base: u64) -> (r: Result<u8, KernelError>)
    requires
        slots_wf(old(table)@),
        base <= CHIP_BASE_LIMIT,
    ensures
        slots_wf(final(table)@),
        crate::wireless::chip::first_unused(old(table)@, 0) is None ==> r == Err::<u8, KernelError>(
            KernelError::ResourceExhausted) && final(table)@ == old(table)@,
        crate::wireless::chip::first_unused(old(table)@, 0) matches Some(k) ==> r == Ok::<u8, KernelError>(k as u8)
            && final(table)@ == old(table)@.update(k, Ath10kHw::fresh_spec(base)),
{
    alloc_slot(table, base)
}

/// The ath10k driver: its slot table and the register access to its chips.
pub struct Ath10kOps<R: RegisterIo> {
    pub table: Vec<Ath10kHw>,
    pub io: R,
    /// The operations asked of it, in order, with their results.
    pub wlog: Ghost<Seq<(WifiOp, u8, Result<(), KernelError>)>>,
}

impl<R: RegisterIo> Ath10kOps<R> {
    /// Four free slots.
    pub fn new(io: R) -> (o: Ath10kOps<R>)
        ensures
            slots_wf(o.table@),
            forall|i: int| 0 <= i < MAX_CHIPS ==> #[trigger] o.table@[i] == Ath10kHw::empty_spec(),
    {
        let mut table: Vec<Ath10kHw> = Vec::new();
        let mut i: usize = 0;
        while i < MAX_CHIPS
            invariant
                i <= MAX_CHIPS,
                table@.len() == i,
                forall|k: int| 0 <= k < i ==> #[trigger] table@[k] == Ath10kHw::empty_spec(),
            decreases MAX_CHIPS - i,
        {
            table.push(Ath10kHw::empty());
            i = i + 1;
        }
        Ath10kOps { table, io, wlog: Ghost(Seq::empty()) }
    }

    /// Sends WMI command `cmd_id` with `param` once the firmware takes
    /// commands (polled up to 1000 times); `Timeout` otherwise.
    fn wmi_send(&mut self, hw_idx: u8, cmd_id: u32, param: u32) -> (r: Result<(), KernelError>)
        ensures
            final(self).table@ == old(self).table@,
            r is Err ==> r == Err::<(), KernelError>(KernelError::Timeout),
            wmi_posted(slot_base_of(old(self).table@, hw_idx), cmd_id, param, old(self).io.trace(),
                final(self).io.trace(), r is Ok),
    {
        let base = slot_base(&self.table, hw_idx);
        if wait_bit(&mut self.io, base, REG_WMI_STATUS, 0x01, 1000) {
            chip_write(&mut self.io, base, REG_WMI_CMD, cmd_id);
            chip_write(&mut self.io, base, REG_WMI_DATA, param);
            proof {
                let vals = choose|vals: Seq<u32>| bit_wait(vals, 0x01, 1000, true) && #[trigger] chip_reads(base,
                    REG_WMI_STATUS, vals) == chip_reads(base, REG_WMI_STATUS, vals) && self.io.trace()
                    == old(self).io.trace() + chip_reads(base, REG_WMI_STATUS, vals) + chip_writes(base, REG_WMI_CMD,
                    seq![cmd_id]) + chip_writes(base, REG_WMI_DATA, seq![param]);
                assert(self.io.trace() =~= old(self).io.trace() + wmi_events(base, cmd_id, param, vals, true));
            }
            Ok(())
        } else {
            proof {
                let vals = choose|vals: Seq<u32>| bit_wait(vals, 0x01, 1000, false) && #[trigger] chip_reads(base,
                    REG_WMI_STATUS, vals) == chip_reads(base, REG_WMI_STATUS, vals) && self.io.trace()
                    == old(self).io.trace() + chip_reads(base, REG_WMI_STATUS, vals);
                assert(self.io.trace() =~= old(self).io.trace() + wmi_events(base, cmd_id, param, vals, false));
            }
            Err(KernelError::Timeout)
        }
    }
}

/// The accesses of sending WMI command `cmd_id` with `param` to the chip
/// at `base`: the status reads `vals` of the wait, then, when the firmware
/// took commands, the command and the parameter.
pub open spec fn wmi_events(base: u64, cmd_id: u32, param: u32, vals: Seq<u32>, ok: bool) -> Seq<IoEvent> {
    chip_reads(base, REG_WMI_STATUS, vals) + if ok {
        chip_writes(base, REG_WMI_CMD, seq![cmd_id]) + chip_writes(base, REG_WMI_DATA, seq![param])
    } else {
        seq![]
    }
}

/// Whether history `after` is `before` followed by the sending of WMI
/// command `cmd_id` with `param` (waiting at most 1000 polls), which
/// succeeded exactly when `ok`.
pub open spec fn wmi_posted(base: u64, cmd_id: u32, param: u32, before: Seq<IoEvent>, after: Seq<IoEvent>, ok: bool) -> bool {
    exists|vals: Seq<u32>| #![trigger wmi_events(base, cmd_id, param, vals, ok)]
        bit_wait(vals, 0x01, 1000, ok) && after == before + wmi_events(base, cmd_id, param, vals, ok)
}

/// The accesses of `init` on the chip at `base`: the reset pulse, the SoC
/// wait whose reads gave `soc`, the firmware wait whose reads gave `fw`,
/// the version read giving `ver`, then the interrupt mask.
pub open spec fn ath_init_events(base: u64, soc: Seq<u32>, fw: Seq<u32>, ver: u32) -> Seq<IoEvent> {
    chip_writes(base, REG_SOC_RESET, seq![0x01u32, 0x00u32]) + chip_reads(base, REG_SOC_STATUS, soc) + chip_reads(base,
        REG_FW_INDICATOR, fw) + chip_reads(base, REG_FW_INDICATOR, seq![ver]) + chip_writes(base, REG_IRQ_MASK, seq![
        !(IRQ_FW_READY | IRQ_RX | IRQ_TX_DONE | IRQ_SCAN_DONE | IRQ_DISASSOC)])
}

/// The accesses of an interrupt on the chip at `base` whose status read
/// gave `status` and, on scan-done, whose channel and RSSI reads gave
/// `chan` and `rssi`: the reads, then the status written back to clear it.
pub open spec fn ath_irq_events(base: u64, status: u32, chan: u32, rssi: u32) -> Seq<IoEvent> {
    chip_reads(base, REG_IRQ_STATUS, seq![status]) + (if status & IRQ_SCAN_DONE != 0 {
        chip_reads(base, REG_CHAN, seq![chan]) + chip_reads(base, REG_RSSI, seq![rssi])
    } else {
        seq![]
    }) + chip_writes(base, REG_IRQ_CLEAR, seq![status])
}

impl<R: RegisterIo> Ath10kOps<R> {
    /// The hardware side of `init`.
    fn init_hw(&mut self, dev: &WirelessDev) -> (r: Result<(), KernelError>)
        ensures
            r is Ok,
            final(self).table@.len() == old(self).table@.len(),
            (dev.hw_idx as int) < old(self).table@.len() ==> final(self).table@[dev.hw_idx as int].fw_ready,
            exists|soc: Seq<u32>, fw: Seq<u32>, ver: u32| #![trigger ath_init_events(slot_base_of(old(self).table@, dev.hw_idx), soc, fw, ver)]
                (bit_wait(soc, SOC_STATUS_READY, 50_000, true) || bit_wait(soc, SOC_STATUS_READY, 50_000, false))
                    && (bit_wait(fw, FW_IND_READY, 100_000, true) || bit_wait(fw, FW_IND_READY, 100_000, false))
                    && (slot_base_of(old(self).table@, dev.hw_idx) == 0 ==> ver == 0) && final(self).io.trace() == old(self).io.trace() + ath_init_events(
                    slot_base_of(old(self).table@, dev.hw_idx), soc, fw, ver) && ((dev.hw_idx as int) < old(self).table@.len()
                    ==> final(self).table@[dev.hw_idx as int].fw_version == ver),
    {
        let idx = dev.hw_idx;
        let base = slot_base(&self.table, idx);
        chip_write(&mut self.io, base, REG_SOC_RESET, 0x01);
        chip_write(&mut self.io, base, REG_SOC_RESET, 0x00);
        let ghost t1 = self.io.trace();
        let h1 = wait_bit(&mut self.io, base, REG_SOC_STATUS, SOC_STATUS_READY, 50_000);
        let ghost t2 = self.io.trace();
        let h2 = wait_bit(&mut self.io, base, REG_FW_INDICATOR, FW_IND_READY, 100_000);
        let ghost t3 = self.io.trace();
        let fw_ver = chip_read(&mut self.io, base, REG_FW_INDICATOR);
        let ghost soc = choose|vals: Seq<u32>| bit_wait(vals, SOC_STATUS_READY, 50_000, h1) && #[trigger] chip_reads(
            base, REG_SOC_STATUS, vals) == chip_reads(base, REG_SOC_STATUS, vals) && t2 == t1 + chip_reads(base,
            REG_SOC_STATUS, vals);
        let ghost fw = choose|vals: Seq<u32>| bit_wait(vals, FW_IND_READY, 100_000, h2) && #[trigger] chip_reads(base,
            REG_FW_INDICATOR, vals) == chip_reads(base, REG_FW_INDICATOR, vals) && t3 == t2 + chip_reads(base,
            REG_FW_INDICATOR, vals);
        let i = idx as usize;
        if i < self.table.len() {
            let mut h = self.table[i];
            h.fw_ready = true;
            h.fw_version = fw_ver;
            self.table.set(i, h);
        }
        chip_write(&mut self.io, base, REG_IRQ_MASK, !(IRQ_FW_READY | IRQ_RX | IRQ_TX_DONE | IRQ_SCAN_DONE | IRQ_DISASSOC));
        proof {
            assert(chip_writes(base, REG_SOC_RESET, seq![0x01u32, 0x00u32]) =~= chip_writes(base, REG_SOC_RESET, seq![
                0x01u32]) + chip_writes(base, REG_SOC_RESET, seq![0x00u32]));
            assert(self.io.trace() =~= old(self).io.trace() + ath_init_events(base, soc, fw, fw_ver));
        }
        Ok(())
    }

    /// The hardware side of `scan`.
    fn scan_hw(&mut self, dev: &WirelessDev, ssid: Option<&[u8]>) -> (r: Result<(), KernelError>)
        ensures
            final(self).table@ == old(self).table@,
            r is Err ==> r == Err::<(), KernelError>(KernelError::Timeout),
            wmi_posted(slot_base_of(old(self).table@, dev.hw_idx), WMI_START_SCAN_CMDID, 0, old(self).io.trace(), final(self).io.trace(), r is Ok),
    {
        self.wmi_send(dev.hw_idx, WMI_START_SCAN_CMDID, 0)
    }

    /// The hardware side of `connect`.
    fn connect_hw(&mut self, dev: &WirelessDev, req: &ConnectReq) -> (r: Result<(), KernelError>)
        ensures
            final(self).table@ == old(self).table@,
            r is Err ==> r == Err::<(), KernelError>(KernelError::Timeout),
            wmi_posted(slot_base_of(old(self).table@, dev.hw_idx), WMI_CONNECT_CMDID, le_word(req.bssid@[0], req.bssid@[1], req.bssid@[2], req.bssid@[3]),
                old(self).io.trace() + chip_writes(slot_base_of(old(self).table@, dev.hw_idx), REG_CHAN, seq![req.channel as u32]), final(self).io.trace(),
                r is Ok),
    {
        let base = slot_base(&self.table, dev.hw_idx);
        chip_write(&mut self.io, base, REG_CHAN, req.channel as u32);
        let b0 = le_word_of(req.bssid[0], req.bssid[1], req.bssid[2], req.bssid[3]);
        self.wmi_send(dev.hw_idx, WMI_CONNECT_CMDID, b0)
    }

    /// The hardware side of `disconnect`.
    fn disconnect_hw(&mut self, dev: &WirelessDev, reason: u16)
        ensures
            final(self).table@ == old(self).table@,
            wmi_posted(slot_base_of(old(self).table@, dev.hw_idx), WMI_DISCONNECT_CMDID, reason as u32, old(self).io.trace(), final(self).io.trace(), true)
                || wmi_posted(slot_base_of(old(self).table@, dev.hw_idx), WMI_DISCONNECT_CMDID, reason as u32, old(self).io.trace(), final(self).io.trace(),
                false),
    {
        let _ = self.wmi_send(dev.hw_idx, WMI_DISCONNECT_CMDID, reason as u32);
    }

    /// The hardware side of `tx`.
    fn tx_hw(&mut self, dev: &WirelessDev, data: &[u8]) -> (r: Result<(), KernelError>)
        ensures
            r is Ok,
            final(self).table@ == old(self).table@,
            data@.len() + 3 <= usize::MAX ==> final(self).io.trace() == old(self).io.trace() + chip_writes(slot_base_of(old(self).table@, dev.hw_idx),
                REG_TX_LEN, seq![(data@.len() % 0x1_0000_0000) as u32]) + chip_writes(slot_base_of(old(self).table@, dev.hw_idx), REG_TX_FIFO, frame_words(
                data@)),
            data@.len() + 3 > usize::MAX ==> final(self).io.trace() == old(self).io.trace(),
    {
        let base = slot_base(&self.table, dev.hw_idx);
        if data.len() <= usize::MAX - 3 {
            write_frame(&mut self.io, base, REG_TX_LEN, REG_TX_FIFO, data);
        }
        Ok(())
    }
}

impl<R: RegisterIo> WirelessOps for Ath10kOps<R> {
    closed spec fn wcalls(&self) -> Seq<(WifiOp, u8, Result<(), KernelError>)> {
        self.wlog@
    }

    /// Resets the SoC, waits (boundedly) for it and for the firmware,
    /// records the firmware version and readiness, and unmasks the
    /// interrupts.
    fn init(&mut self, dev: &WirelessDev) -> (r: Result<(), KernelError>)
        ensures
            r is Ok,
            final(self).table@.len() == old(self).table@.len(),
            (dev.hw_idx as int) < old(self).table@.len() ==> final(self).table@[dev.hw_idx as int].fw_ready,
            exists|soc: Seq<u32>, fw: Seq<u32>, ver: u32| #![trigger ath_init_events(slot_base_of(old(self).table@, dev.hw_idx), soc, fw, ver)]
                (bit_wait(soc, SOC_STATUS_READY, 50_000, true) || bit_wait(soc, SOC_STATUS_READY, 50_000, false))
                    && (bit_wait(fw, FW_IND_READY, 100_000, true) || bit_wait(fw, FW_IND_READY, 100_000, false))
                    && (slot_base_of(old(self).table@, dev.hw_idx) == 0 ==> ver == 0) && final(self).io.trace() == old(self).io.trace() + ath_init_events(
                    slot_base_of(old(self).table@, dev.hw_idx), soc, fw, ver) && ((dev.hw_idx as int) < old(self).table@.len()
                    ==> final(self).table@[dev.hw_idx as int].fw_version == ver),
    {
        let r = self.init_hw(dev);
        self.wlog = Ghost(old(self).wlog@.push((WifiOp::Init, dev.hw_idx, r)));
        r
    }

    /// Masks every interrupt, holds the SoC in reset, and marks the
    /// firmware not ready.
    fn deinit(&mut self, dev: &WirelessDev)
        ensures
            final(self).table@.len() == old(self).table@.len(),
            (dev.hw_idx as int) < old(self).table@.len() ==> !final(self).table@[dev.hw_idx as int].fw_ready,
            final(self).io.trace() == old(self).io.trace() + chip_writes(slot_base_of(old(self).table@, dev.hw_idx), REG_IRQ_MASK, seq![0xFFFF_FFFFu32])
                + chip_writes(slot_base_of(old(self).table@, dev.hw_idx), REG_SOC_RESET, seq![0x01u32]),
    {
        let idx = dev.hw_idx;
        let base = slot_base(&self.table, idx);
        chip_write(&mut self.io, base, REG_IRQ_MASK, 0xFFFF_FFFF);
        chip_write(&mut self.io, base, REG_SOC_RESET, 0x01);
        let i = idx as usize;
        if i < self.table.len() {
            let mut h = self.table[i];
            h.fw_ready = false;
            self.table.set(i, h);
        }
    }

    /// Sends the start-scan command.
    fn scan(&mut self, dev: &WirelessDev, ssid: Option<&[u8]>) -> (r: Result<(), KernelError>)
        ensures
            final(self).table@ == old(self).table@,
            r is Err ==> r == Err::<(), KernelError>(KernelError::Timeout),
            wmi_posted(slot_base_of(old(self).table@, dev.hw_idx), WMI_START_SCAN_CMDID, 0, old(self).io.trace(), final(self).io.trace(), r is Ok),
    {
        let r = self.scan_hw(dev, ssid);
        self.wlog = Ghost(old(self).wlog@.push((WifiOp::Scan, dev.hw_idx, r)));
        r
    }

    /// Sends the stop-scan command.
    fn abort_scan(&mut self, dev: &WirelessDev)
        ensures
            final(self).table@ == old(self).table@,
            wmi_posted(slot_base_of(old(self).table@, dev.hw_idx), WMI_STOP_SCAN_CMDID, 0, old(self).io.trace(), final(self).io.trace(), true) || wmi_posted(
                slot_base_of(old(self).table@, dev.hw_idx), WMI_STOP_SCAN_CMDID, 0, old(self).io.trace(), final(self).io.trace(), false),
    {
        let _ = self.wmi_send(dev.hw_idx, WMI_STOP_SCAN_CMDID, 0);
    }

    /// Sets the channel register to the request's channel, then sends the
    /// connect command with the first four BSSID bytes.
    fn connect(&mut self, dev: &WirelessDev, req: &ConnectReq) -> (r: Result<(), KernelError>)
        ensures
            final(self).table@ == old(self).table@,
            r is Err ==> r == Err::<(), KernelError>(KernelError::Timeout),
            wmi_posted(slot_base_of(old(self).table@, dev.hw_idx), WMI_CONNECT_CMDID, le_word(req.bssid@[0], req.bssid@[1], req.bssid@[2], req.bssid@[3]),
                old(self).io.trace() + chip_writes(slot_base_of(old(self).table@, dev.hw_idx), REG_CHAN, seq![req.channel as u32]), final(self).io.trace(),
                r is Ok),
    {
        let r = self.connect_hw(dev, req);
        self.wlog = Ghost(old(self).wlog@.push((WifiOp::Connect, dev.hw_idx, r)));
        r
    }

    /// Sends the disconnect command with the reason.
    fn disconnect(&mut self, dev: &WirelessDev, reason: u16)
        ensures
            final(self).table@ == old(self).table@,
            wmi_posted(slot_base_of(old(self).table@, dev.hw_idx), WMI_DISCONNECT_CMDID, reason as u32, old(self).io.trace(), final(self).io.trace(), true)
                || wmi_posted(slot_base_of(old(self).table@, dev.hw_idx), WMI_DISCONNECT_CMDID, reason as u32, old(self).io.trace(), final(self).io.trace(),
                false),
    {
        self.disconnect_hw(dev, reason);
        self.wlog = Ghost(old(self).wlog@.push((WifiOp::Disconnect, dev.hw_idx, Ok(()))));
    }

    /// Writes the length, then the frame word by word into the TX FIFO.
    fn tx(&mut self, dev: &WirelessDev, data: &[u8]) -> (r: Result<(), KernelError>)
        ensures
            r is Ok,
            final(self).table@ == old(self).table@,
            data@.len() + 3 <= usize::MAX ==> final(self).io.trace() == old(self).io.trace() + chip_writes(slot_base_of(old(self).table@, dev.hw_idx),
                REG_TX_LEN, seq![(data@.len() % 0x1_0000_0000) as u32]) + chip_writes(slot_base_of(old(self).table@, dev.hw_idx), REG_TX_FIFO, frame_words(
                data@)),
            data@.len() + 3 > usize::MAX ==> final(self).io.trace() == old(self).io.trace(),
    {
        let r = self.tx_hw(dev, data);
        self.wlog = Ghost(old(self).wlog@.push((WifiOp::Tx, dev.hw_idx, r)));
        r
    }

    /// Sends the power command (the dBm value's low byte) and records the
    /// power when the firmware takes it.
    fn set_tx_power(&mut self, dev: &WirelessDev, dbm: i8) -> (r: Result<(), KernelError>)
        ensures
            final(self).table@.len() == old(self).table@.len(),
            r is Err ==> r == Err::<(), KernelError>(KernelError::Timeout) && final(self).table@ == old(self).table@,
            r is Ok && (dev.hw_idx as int) < old(self).table@.len() ==> final(self).table@ == old(self).table@.update(
                dev.hw_idx as int, Ath10kHw { tx_power_dbm: dbm, ..old(self).table@[dev.hw_idx as int] }),
            wmi_posted(slot_base_of(old(self).table@, dev.hw_idx), WMI_SET_TX_PWR_CMDID, (dbm as u8) as u32, old(self).io.trace(), final(self).io.trace(),
                r is Ok),
    {
        let param = (dbm as u8) as u32;
        self.wmi_send(dev.hw_idx, WMI_SET_TX_PWR_CMDID, param)?;
        let i = dev.hw_idx as usize;
        if i < self.table.len() {
            let mut h = self.table[i];
            h.tx_power_dbm = dbm;
            self.table.set(i, h);
        }
        Ok(())
    }

    /// The RSSI register's low byte as dBm.
    fn get_signal(&mut self, dev: &WirelessDev) -> (s: i8)
        ensures
            final(self).table@ == old(self).table@,
            exists|v: u32| #![trigger chip_reads(slot_base_of(old(self).table@, dev.hw_idx), REG_RSSI, seq![v])]
                (slot_base_of(old(self).table@, dev.hw_idx) == 0 ==> v == 0) && s == (v & 0xFF) as u8 as i8
                    && final(self).io.trace() == old(self).io.trace() + chip_reads(slot_base_of(old(self).table@, dev.hw_idx), REG_RSSI, seq![v]),
    {
        let base = slot_base(&self.table, dev.hw_idx);
        let v = chip_read(&mut self.io, base, REG_RSSI);
        assert(self.io.trace() =~= old(self).io.trace() + chip_reads(base, REG_RSSI, seq![v]));
        (v & 0xFF) as u8 as i8
    }
}

/// Interrupt of the chip behind `dev`: on scan-done, one result for the
/// channel in the channel register (with its RSSI) joins the device's
/// ring; the status bits are then cleared.
pub fn ath10k_irq_handler<R: RegisterIo>(ops: &mut Ath10kOps<R>, dev: &mut WirelessDev)
    requires
        wdev_wf(old(dev)),
    ensures
        wdev_wf(final(dev)),
        final(ops).table@ == old(ops).table@,
        final(dev).hw_idx == old(dev).hw_idx && final(dev).state == old(dev).state,
        final(dev).scan_count == old(dev).scan_count || final(dev).scan_count == crate::wireless::wrap_add(
            old(dev).scan_count, 1),
        exists|status: u32, chan: u32, rssi: u32| #![trigger ath_irq_events(slot_base_of(old(ops).table@, old(dev).hw_idx), status, chan, rssi)]
            final(ops).io.trace() == old(ops).io.trace() + ath_irq_events(slot_base_of(old(ops).table@, old(dev).hw_idx), status, chan, rssi)
                && (status & IRQ_SCAN_DONE == 0 ==> final(dev).scan_count == old(dev).scan_count
                && final(dev).scan_results@ == old(dev).scan_results@) && (status & IRQ_SCAN_DONE != 0
                ==> final(dev).scan_count == crate::wireless::wrap_add(old(dev).scan_count, 1)
                && final(dev).scan_results@[(old(dev).scan_count % 32) as int].signal_dbm == (rssi & 0xFF) as u8 as i8
                && final(dev).scan_results@[(old(dev).scan_count % 32) as int].channel.hw_value == (chan & 0xFFFF) as u16),
{
    let base = slot_base(&ops.table, dev.hw_idx);
    let status = chip_read(&mut ops.io, base, REG_IRQ_STATUS);
    let ghost mut cv: u32 = 0;
    let ghost mut rv: u32 = 0;
    if status & IRQ_SCAN_DONE != 0 {
        let c = chip_read(&mut ops.io, base, REG_CHAN);
        let chan = (c & 0xFFFF) as u16;
        let freq = chan_to_freq(chan);
        let v = chip_read(&mut ops.io, base, REG_RSSI);
        proof {
            cv = c;
            rv = v;
        }
        let rssi = (v & 0xFF) as u8 as i8;
        let band = if freq < 5000 { crate::wireless::Band::Band2GHz } else { crate::wireless::Band::Band5GHz };
        let result = scan_result_for(chan, freq, band, rssi);
        dev.add_scan_result(result);
    }
    chip_write(&mut ops.io, base, REG_IRQ_CLEAR, status);
    assert(ops.io.trace() =~= old(ops).io.trace() + ath_irq_events(base, status, cv, rv));
}

/// A device for a new ath10k chip at `base` with address `mac`, in the
/// first free slot; `ResourceExhausted` when none is free.
pub fn ath10k_probe<R: RegisterIo>(ops: &mut Ath10kOps<R>, base: u64, mac: [u8; 6]) -> (r: Result<WirelessDev, KernelError>)
    requires
        slots_wf(old(ops).table@),
        base <= CHIP_BASE_LIMIT,
    ensures
        slots_wf(final(ops).table@),
        crate::wireless::chip::first_unused(old(ops).table@, 0) is None <==> r is Err,
        r is Err ==> r == Err::<WirelessDev, KernelError>(KernelError::ResourceExhausted),
        r matches Ok(d) ==> wdev_wf(&d) && d.mac_addr == mac && d.state == 0
            && crate::wireless::chip::first_unused(old(ops).table@, 0) == Some(d.hw_idx as int)
            && final(ops).table@ == old(ops).table@.update(d.hw_idx as int, Ath10kHw::fresh_spec(base)),
{
    proof { crate::wireless::chip::lemma_first_unused(ops.table@, 0); }
    let idx = alloc_hw(&mut ops.table, base)?;
    Ok(WirelessDev::new(idx, mac))
}

} // verus!
