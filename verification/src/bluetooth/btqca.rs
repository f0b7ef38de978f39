//! Qualcomm Bluetooth controllers (QCA6174, WCN399x) on a 16550-style UART.
//!
//! Register offsets are relative to the controller's base. Transmission
//! waits on the transmit-empty flag without bound and is run by the caller.
use vstd::prelude::*;
use crate::bluetooth::hci_uart::first_unused;
use crate::clk::mmio::{IoEvent, RegisterIo, reads};
use crate::error::KernelError;

verus! {

/// Divisor latch, low byte.
pub const QCA_UART_DLL: u64 = 0x0000;
/// Divisor latch, high byte.
pub const QCA_UART_DLH: u64 = 0x0004;
/// FIFO control.
pub const QCA_UART_FCR: u64 = 0x0008;
/// Line control.
pub const QCA_UART_LCR: u64 = 0x000C;
/// Modem control.
pub const QCA_UART_MCR: u64 = 0x0010;
/// Line status.
pub const QCA_UART_LSR: u64 = 0x0014;
/// Transmit holding register.
pub const QCA_UART_THR: u64 = 0x001C;
/// Receive holding register.
pub const QCA_UART_RHR: u64 = 0x0020;
/// Chip reset.
pub const QCA_RESET: u64 = 0x0100;
/// Firmware download status.
pub const QCA_FW_STATUS: u64 = 0x0104;
/// Interrupt status.
pub const QCA_IRQ_STATUS: u64 = 0x0200;
/// Interrupt mask.
pub const QCA_IRQ_MASK: u64 = 0x0204;
/// Interrupt clear.
pub const QCA_IRQ_CLEAR: u64 = 0x0208;

/// Line status: transmit holding register empty.
pub const LSR_THRE: u32 = 0x20;
/// Line status: data ready.
pub const LSR_DR: u32 = 0x01;
/// Interrupt: receive.
pub const IRQ_RX: u32 = 0x01;
/// Firmware status once the firmware is up.
pub const FW_STATUS_READY: u32 = 0xDEAD_BEEF;

/// Polls of the firmware status before giving up waiting.
pub const FW_READY_POLLS: u32 = 100_000;
/// Polls of the transmit-empty flag in a flush.
pub const FLUSH_POLLS: u32 = 10_000;
/// Most bytes read in one interrupt.
pub const QCA_RX_MAX: usize = 256;

/// Number of controllers the table holds.
pub const MAX_BTQCA: usize = 2;

/// Per-controller state.
#[derive(Clone, Copy)]
pub struct BtQcaHw {
    pub base: u64,
    pub fw_ready: bool,
    pub baud: u32,
    pub used: bool,
}

impl BtQcaHw {
    /// An unused entry.
    pub fn empty() -> (r: Self)
        ensures
            r.base == 0 && !r.fw_ready && r.baud == 115200 && !r.used,
    {
        BtQcaHw { base: 0, fw_ready: false, baud: 115200, used: false }
    }
}

/// The Qualcomm controllers.
pub struct BtQcaTable {
    pub hw: Vec<BtQcaHw>,
}

impl BtQcaTable {
    pub open spec fn wf(&self) -> bool {
        self.hw@.len() == MAX_BTQCA
    }

    /// All entries unused.
    pub fn new() -> (r: Self)
        ensures
            r.wf(),
            forall|i: int| 0 <= i < MAX_BTQCA ==> !(#[trigger] r.hw@[i]).used,
    {
        let mut hw: Vec<BtQcaHw> = Vec::new();
        let mut i: usize = 0;
        while i < MAX_BTQCA
            invariant
                i <= MAX_BTQCA,
                hw@.len() == i,
                forall|j: int| 0 <= j < i ==> !(#[trigger] hw@[j]).used,
            decreases MAX_BTQCA - i,
        {
            hw.push(BtQcaHw::empty());
            i = i + 1;
        }
        BtQcaTable { hw }
    }
}

/// Claim the first unused entry for a controller at `base` running at
/// `baud`; `ResourceExhausted` when all are in use.
pub fn alloc_hw(tbl: &mut BtQcaTable, base: u64, baud: u32) -> (r: Result<u8, KernelError>)
    requires
        old(tbl).wf(),
    ensures
        final(tbl).wf(),
        first_unused(|i: int| old(tbl).hw@[i].used, MAX_BTQCA as int, 0) is None ==> (r matches Err(
            KernelError::ResourceExhausted,
        )) && final(tbl).hw@ == old(tbl).hw@,
        first_unused(|i: int| old(tbl).hw@[i].used, MAX_BTQCA as int, 0) matches Some(k) ==> r == Ok::<u8, KernelError>(
            k as u8,
        ) && final(tbl).hw@ == old(tbl).hw@.update(k, BtQcaHw { base, fw_ready: false, baud, used: true }),
{
    let ghost used = |i: int| old(tbl).hw@[i].used;
    let mut i: usize = 0;
    while i < MAX_BTQCA
        invariant
            tbl.wf(),
            tbl.hw@ == old(tbl).hw@,
            used == (|i: int| old(tbl).hw@[i].used),
            i <= MAX_BTQCA,
            first_unused(used, MAX_BTQCA as int, i as int) == first_unused(used, MAX_BTQCA as int, 0),
        decreases MAX_BTQCA - i,
    {
        if !tbl.hw[i].used {
            tbl.hw.set(i, BtQcaHw { base, fw_ready: false, baud, used: true });
            return Ok(i as u8);
        }
        i = i + 1;
    }
    Err(KernelError::ResourceExhausted)
}

/// The 16550 divisor for `baud` from the 48 MHz reference clock.
pub open spec fn qca_divisor(baud: u32) -> u32 {
    (48_000_000int / (16 * baud)) as u32
}

/// The writes that program divisor `d` (8N1): open the latch, the low and
/// high byte, close the latch.
pub open spec fn baud_writes(base: u64, d: u32) -> Seq<IoEvent> {
    seq![
        IoEvent::Write(base.wrapping_add(QCA_UART_LCR), 0x83),
        IoEvent::Write(base.wrapping_add(QCA_UART_DLL), d & 0xFF),
        IoEvent::Write(base.wrapping_add(QCA_UART_DLH), (d >> 8) & 0xFF),
        IoEvent::Write(base.wrapping_add(QCA_UART_LCR), 0x03),
    ]
}

/// Program the divisor latch for `baud` (8N1). Returns the divisor.
pub fn uart_set_baud<R: RegisterIo>(io: &mut R, base: u64, baud: u32) -> (d: u32)
    requires
        0 < baud,
        16 * baud <= u32::MAX,
    ensures
        d == qca_divisor(baud),
        final(io).trace() == old(io).trace() + baud_writes(base, d),
{
    let divisor: u32 = 48_000_000 / (16 * baud);
    io.write_reg(base.wrapping_add(QCA_UART_LCR), 0x83);
    io.write_reg(base.wrapping_add(QCA_UART_DLL), divisor & 0xFF);
    io.write_reg(base.wrapping_add(QCA_UART_DLH), (divisor >> 8) & 0xFF);
    io.write_reg(base.wrapping_add(QCA_UART_LCR), 0x03);
    assert(io.trace() =~= old(io).trace() + baud_writes(base, divisor));
    divisor
}

/// The firmware-status reads of an open: up to [`FW_READY_POLLS`] of
/// them, stopping at the first that shows the firmware up.
pub open spec fn fw_wait(w: Seq<u32>) -> bool {
    &&& w.len() <= FW_READY_POLLS
    &&& forall|i: int| 0 <= i < w.len() - 1 ==> #[trigger] w[i] != FW_STATUS_READY
    &&& w.len() < FW_READY_POLLS ==> w.len() > 0 && w.last() == FW_STATUS_READY
}

/// The accesses of opening the controller at `base` with divisor `d`
/// while the firmware status reads gave `w`.
pub open spec fn open_events(base: u64, d: u32, w: Seq<u32>) -> Seq<IoEvent> {
    seq![IoEvent::Write(base.wrapping_add(QCA_RESET), 0x01), IoEvent::Write(base.wrapping_add(QCA_RESET), 0x00)]
        + baud_writes(base, d) + seq![
        IoEvent::Write(base.wrapping_add(QCA_UART_FCR), 0x07),
        IoEvent::Write(base.wrapping_add(QCA_UART_MCR), 0x03),
    ] + reads(base.wrapping_add(QCA_FW_STATUS), w) + seq![IoEvent::Write(base.wrapping_add(QCA_IRQ_MASK), IRQ_RX)]
}

/// Reset the chip, configure the UART, wait (boundedly) for the firmware,
/// mark the controller ready and unmask the receive interrupt.
pub fn btqca_open<R: RegisterIo>(io: &mut R, tbl: &mut BtQcaTable, idx: u8) -> (r: Result<(), KernelError>)
    requires
        old(tbl).wf(),
        (idx as int) < MAX_BTQCA,
        0 < old(tbl).hw@[idx as int].baud,
        16 * old(tbl).hw@[idx as int].baud <= u32::MAX,
    ensures
        r is Ok,
        final(tbl).wf(),
        final(tbl).hw@ == old(tbl).hw@.update(idx as int, BtQcaHw { fw_ready: true, ..old(tbl).hw@[idx as int] }),
        exists|w: Seq<u32>| #![trigger open_events(old(tbl).hw@[idx as int].base, qca_divisor(old(tbl).hw@[idx as int].baud), w)]
            fw_wait(w) && final(io).trace() == old(io).trace() + open_events(
                old(tbl).hw@[idx as int].base, qca_divisor(old(tbl).hw@[idx as int].baud), w),
{
    let i = idx as usize;
    let base = tbl.hw[i].base;
    io.write_reg(base.wrapping_add(QCA_RESET), 0x01);
    io.write_reg(base.wrapping_add(QCA_RESET), 0x00);
    let baud = tbl.hw[i].baud;
    let d = uart_set_baud(io, base, baud);
    io.write_reg(base.wrapping_add(QCA_UART_FCR), 0x07);
    io.write_reg(base.wrapping_add(QCA_UART_MCR), 0x03);
    let ghost t1 = io.trace();
    let ghost mut w: Seq<u32> = seq![];
    let fw = base.wrapping_add(QCA_FW_STATUS);
    let mut n: u32 = 0;
    assert(t1 + reads(fw, w) =~= t1);
    while n < FW_READY_POLLS
        invariant_except_break
            n <= FW_READY_POLLS,
            w.len() == n,
            forall|i: int| 0 <= i < w.len() ==> #[trigger] w[i] != FW_STATUS_READY,
            io.trace() == t1 + reads(fw, w),
        ensures
            fw_wait(w),
            io.trace() == t1 + reads(fw, w),
        decreases FW_READY_POLLS - n,
    {
        let v = io.read_reg(fw);
        proof {
            assert(reads(fw, w.push(v)) =~= reads(fw, w).push(IoEvent::Read(fw, v)));
            w = w.push(v);
        }
        if v == FW_STATUS_READY {
            break;
        }
        n = n + 1;
    }
    let mut h = tbl.hw[i];
    h.fw_ready = true;
    tbl.hw.set(i, h);
    io.write_reg(base.wrapping_add(QCA_IRQ_MASK), IRQ_RX);
    assert(io.trace() =~= old(io).trace() + open_events(base, d, w));
    Ok(())
}

/// Mask interrupts, hold the chip in reset and mark it not ready.
pub fn btqca_close<R: RegisterIo>(io: &mut R, tbl: &mut BtQcaTable, idx: u8)
    requires
        old(tbl).wf(),
        (idx as int) < MAX_BTQCA,
    ensures
        final(tbl).wf(),
        final(tbl).hw@ == old(tbl).hw@.update(idx as int, BtQcaHw { fw_ready: false, ..old(tbl).hw@[idx as int] }),
        final(io).trace() == old(io).trace() + seq![
            IoEvent::Write(old(tbl).hw@[idx as int].base.wrapping_add(QCA_IRQ_MASK), 0),
            IoEvent::Write(old(tbl).hw@[idx as int].base.wrapping_add(QCA_RESET), 0x01),
        ],
{
    let i = idx as usize;
    let base = tbl.hw[i].base;
    io.write_reg(base.wrapping_add(QCA_IRQ_MASK), 0);
    io.write_reg(base.wrapping_add(QCA_RESET), 0x01);
    let mut h = tbl.hw[i];
    h.fw_ready = false;
    tbl.hw.set(i, h);
    assert(io.trace() =~= old(io).trace() + seq![
        IoEvent::Write(base.wrapping_add(QCA_IRQ_MASK), 0),
        IoEvent::Write(base.wrapping_add(QCA_RESET), 0x01),
    ]);
}

/// The line-status reads of a flush: up to [`FLUSH_POLLS`] of them,
/// stopping at the first that shows the transmitter empty; `drained` when
/// one did.
pub open spec fn flush_wait(vals: Seq<u32>, drained: bool) -> bool {
    &&& 0 < vals.len() <= FLUSH_POLLS
    &&& forall|i: int| 0 <= i < vals.len() - 1 ==> #[trigger] vals[i] & LSR_THRE == 0
    &&& drained == (vals.last() & LSR_THRE != 0)
    &&& !drained ==> vals.len() == FLUSH_POLLS
}

/// Wait (at most [`FLUSH_POLLS`] polls) for the transmitter to drain.
/// Returns whether it drained.
pub fn btqca_flush<R: RegisterIo>(io: &mut R, tbl: &BtQcaTable, idx: u8) -> (drained: bool)
    requires
        tbl.wf(),
        (idx as int) < MAX_BTQCA,
    ensures
        exists|vals: Seq<u32>| #![trigger reads(tbl.hw@[idx as int].base.wrapping_add(QCA_UART_LSR), vals)]
            flush_wait(vals, drained) && final(io).trace() == old(io).trace() + reads(
                tbl.hw@[idx as int].base.wrapping_add(QCA_UART_LSR), vals),
{
    let base = tbl.hw[idx as usize].base;
    let lsr = base.wrapping_add(QCA_UART_LSR);
    let ghost mut vals: Seq<u32> = seq![];
    let mut n: u32 = 0;
    assert(old(io).trace() + reads(lsr, vals) =~= old(io).trace());
    while n < FLUSH_POLLS
        invariant
            lsr == tbl.hw@[idx as int].base.wrapping_add(QCA_UART_LSR),
            n <= FLUSH_POLLS,
            vals.len() == n,
            forall|i: int| 0 <= i < vals.len() ==> #[trigger] vals[i] & LSR_THRE == 0,
            io.trace() == old(io).trace() + reads(lsr, vals),
        decreases FLUSH_POLLS - n,
    {
        let v = io.read_reg(lsr);
        proof {
            assert(reads(lsr, vals.push(v)) =~= reads(lsr, vals).push(IoEvent::Read(lsr, v)));
            vals = vals.push(v);
            assert(io.trace() =~= old(io).trace() + reads(lsr, vals));
        }
        if v & LSR_THRE != 0 {
            assert(flush_wait(vals, true));
            return true;
        }
        n = n + 1;
    }
    assert(flush_wait(vals, false));
    assert(io.trace() == old(io).trace() + reads(tbl.hw@[idx as int].base.wrapping_add(QCA_UART_LSR), vals));
    false
}

/// Whether a line status value shows the transmit holding register empty.
pub fn tx_ready(lsr: u32) -> (r: bool)
    ensures
        r == (lsr & LSR_THRE != 0),
{
    lsr & LSR_THRE != 0
}

/// The accesses of one transmit attempt whose line-status read gave `lsr`:
/// the read, then the write of the byte when the register was empty.
pub open spec fn tx_events(base: u64, lsr: u32, byte: u8) -> Seq<IoEvent> {
    seq![IoEvent::Read(base.wrapping_add(QCA_UART_LSR), lsr)] + if lsr & LSR_THRE != 0 {
        seq![IoEvent::Write(base.wrapping_add(QCA_UART_THR), byte as u32)]
    } else {
        seq![]
    }
}

/// One attempt to transmit `byte`: when the line status shows the
/// transmit holding register empty, the byte is written to it. Returns
/// whether it was written; the caller retries until it was.
pub fn uart_tx_byte<R: RegisterIo>(io: &mut R, base: u64, byte: u8) -> (sent: bool)
    ensures
        exists|lsr: u32| #![trigger tx_events(base, lsr, byte)]
            sent == (lsr & LSR_THRE != 0) && final(io).trace() == old(io).trace() + tx_events(base, lsr, byte),
{
    let lsr = io.read_reg(base.wrapping_add(QCA_UART_LSR));
    if tx_ready(lsr) {
        io.write_reg(base.wrapping_add(QCA_UART_THR), byte as u32);
        assert(io.trace() =~= old(io).trace() + tx_events(base, lsr, byte));
        true
    } else {
        assert(io.trace() =~= old(io).trace() + tx_events(base, lsr, byte));
        false
    }
}

/// The accesses of one receive attempt: the line-status read giving
/// `lsr`, then, when data was ready, the read of the byte register giving
/// `v`.
pub open spec fn rx_events(base: u64, lsr: u32, v: u32) -> Seq<IoEvent> {
    seq![IoEvent::Read(base.wrapping_add(QCA_UART_LSR), lsr)] + if lsr & LSR_DR != 0 {
        seq![IoEvent::Read(base.wrapping_add(QCA_UART_RHR), v)]
    } else {
        seq![]
    }
}

/// One received byte, if the receiver holds one.
pub fn uart_rx_byte<R: RegisterIo>(io: &mut R, base: u64) -> (r: Option<u8>)
    ensures
        exists|lsr: u32, v: u32| #![trigger rx_events(base, lsr, v)]
            final(io).trace() == old(io).trace() + rx_events(base, lsr, v)
                && r == (if lsr & LSR_DR != 0 { Some(v as u8) } else { None }),
{
    let lsr = io.read_reg(base.wrapping_add(QCA_UART_LSR));
    if lsr & LSR_DR != 0 {
        let v = io.read_reg(base.wrapping_add(QCA_UART_RHR));
        assert(io.trace() =~= old(io).trace() + rx_events(base, lsr, v));
        Some(v as u8)
    } else {
        assert(io.trace() =~= old(io).trace() + rx_events(base, lsr, 0));
        None
    }
}

/// The accesses of receiving bytes whose line-status reads gave `lsrs`
/// and whose byte reads gave `vals`, pair by pair.
pub open spec fn rx_pairs(base: u64, lsrs: Seq<u32>, vals: Seq<u32>) -> Seq<IoEvent>
    decreases vals.len(),
{
    if vals.len() == 0 || lsrs.len() == 0 {
        seq![]
    } else {
        rx_pairs(base, lsrs.drop_last(), vals.drop_last()) + rx_events(base, lsrs.last(), vals.last())
    }
}

/// The bytes of the values read from the byte register.
pub open spec fn rx_bytes(vals: Seq<u32>) -> Seq<u8> {
    Seq::new(vals.len(), |i: int| vals[i] as u8)
}

/// Whether `t` is the draining of the receiver in an interrupt: bytes
/// while data is ready, at most [`QCA_RX_MAX`] of them, the last poll
/// (when fewer arrived) showing none. `lsrs` and `vals` are the values of
/// the line-status and byte reads of the bytes, `stop` that of the last
/// poll.
pub open spec fn rx_drain(base: u64, lsrs: Seq<u32>, vals: Seq<u32>, stop: u32, t: Seq<IoEvent>) -> bool {
    &&& lsrs.len() == vals.len() && vals.len() <= QCA_RX_MAX
    &&& forall|i: int| 0 <= i < lsrs.len() ==> #[trigger] lsrs[i] & LSR_DR != 0
    &&& t == rx_pairs(base, lsrs, vals) + (if vals.len() < QCA_RX_MAX {
        rx_events(base, stop, 0)
    } else {
        seq![]
    })
    &&& vals.len() < QCA_RX_MAX ==> stop & LSR_DR == 0
}

/// The accesses of an interrupt whose status read gave `status`: that
/// read, and when a receive was pending, the draining `t` and the
/// acknowledgement.
pub open spec fn qca_irq_events(base: u64, status: u32, t: Seq<IoEvent>) -> Seq<IoEvent> {
    seq![IoEvent::Read(base.wrapping_add(QCA_IRQ_STATUS), status)] + if status & IRQ_RX == 0 {
        seq![]
    } else {
        t.push(IoEvent::Write(base.wrapping_add(QCA_IRQ_CLEAR), status))
    }
}

/// Interrupt handler: when the receive interrupt is pending, read up to
/// [`QCA_RX_MAX`] bytes and acknowledge the interrupt. Returns the event
/// to deliver to the HCI layer: the bytes after the H4 type byte, when at
/// least three bytes arrived.
#[verifier::spinoff_prover]
pub fn btqca_irq_handler<R: RegisterIo>(io: &mut R, tbl: &BtQcaTable, idx: u8) -> (r: Option<Vec<u8>>)
    requires
        tbl.wf(),
        (idx as int) < MAX_BTQCA,
    ensures
        r matches Some(ev) ==> 2 <= ev@.len() < QCA_RX_MAX,
        exists|status: u32, lsrs: Seq<u32>, vals: Seq<u32>, stop: u32, t: Seq<IoEvent>|
            #![trigger qca_irq_events(tbl.hw@[idx as int].base, status, t), rx_drain(tbl.hw@[idx as int].base, lsrs, vals, stop, t)]
            final(io).trace() == old(io).trace() + qca_irq_events(tbl.hw@[idx as int].base, status, t)
                && (status & IRQ_RX == 0 ==> r is None) && (status & IRQ_RX != 0 ==> rx_drain(
                tbl.hw@[idx as int].base, lsrs, vals, stop, t) && (vals.len() >= 3 <==> r is Some) && (r matches Some(ev)
                ==> ev@ == rx_bytes(vals).subrange(1, vals.len() as int))),
{
    let base = tbl.hw[idx as usize].base;
    let status = io.read_reg(base.wrapping_add(QCA_IRQ_STATUS));
    if status & IRQ_RX == 0 {
        proof {
            let e: Seq<u32> = seq![];
            let t0: Seq<IoEvent> = rx_events(tbl.hw@[idx as int].base, 0, 0);
            assert(io.trace() =~= old(io).trace() + qca_irq_events(tbl.hw@[idx as int].base, status, t0));
            assert(rx_pairs(tbl.hw@[idx as int].base, e, e) =~= seq![]);
            assert(t0 =~= rx_pairs(tbl.hw@[idx as int].base, e, e) + rx_events(tbl.hw@[idx as int].base, 0, 0));
            assert(0u32 & 0x01u32 == 0) by (bit_vector);
            assert(rx_drain(tbl.hw@[idx as int].base, e, e, 0, t0));
        }
        return None;
    }
    let ghost t1 = io.trace();
    let ghost mut lsrs: Seq<u32> = seq![];
    let ghost mut vals: Seq<u32> = seq![];
    let ghost mut stop: u32 = 0;
    let mut buf: Vec<u8> = Vec::new();
    while buf.len() < QCA_RX_MAX
        invariant_except_break
            buf@.len() <= QCA_RX_MAX,
            lsrs.len() == vals.len() && vals.len() == buf@.len(),
            buf@ == rx_bytes(vals),
            forall|i: int| 0 <= i < lsrs.len() ==> #[trigger] lsrs[i] & LSR_DR != 0,
            io.trace() == t1 + rx_pairs(base, lsrs, vals),
        ensures
            buf@.len() <= QCA_RX_MAX,
            lsrs.len() == vals.len() && vals.len() == buf@.len(),
            buf@ == rx_bytes(vals),
            forall|i: int| 0 <= i < lsrs.len() ==> #[trigger] lsrs[i] & LSR_DR != 0,
            buf@.len() < QCA_RX_MAX ==> stop & LSR_DR == 0 && io.trace() == t1 + rx_pairs(base, lsrs, vals)
                + rx_events(base, stop, 0),
            buf@.len() >= QCA_RX_MAX ==> io.trace() == t1 + rx_pairs(base, lsrs, vals),
        decreases QCA_RX_MAX - buf@.len(),
    {
        let ghost tb = io.trace();
        let got = uart_rx_byte(io, base);
        let ghost (l, v) = choose|l: u32, v: u32| #[trigger] rx_events(base, l, v) == rx_events(base, l, v)
            && io.trace() == tb + rx_events(base, l, v) && got == (if l & LSR_DR != 0 { Some(v as u8) } else { None });
        match got {
            Some(b) => {
                buf.push(b);
                proof {
                    let nl = lsrs.push(l);
                    let nv = vals.push(v);
                    assert(nl.drop_last() =~= lsrs);
                    assert(nv.drop_last() =~= vals);
                    assert(rx_pairs(base, nl, nv) == rx_pairs(base, lsrs, vals) + rx_events(base, l, v));
                    assert(io.trace() =~= t1 + rx_pairs(base, nl, nv));
                    assert(rx_bytes(nv) =~= rx_bytes(vals).push(b));
                    lsrs = nl;
                    vals = nv;
                }
            },
            None => {
                proof {
                    stop = l;
                    assert(rx_events(base, l, v) =~= rx_events(base, l, 0));
                }
                break;
            },
        }
    }
    let r = if buf.len() >= 3 {
        let mut ev: Vec<u8> = Vec::new();
        let mut k: usize = 1;
        while k < buf.len()
            invariant
                1 <= k <= buf@.len(),
                buf@.len() <= QCA_RX_MAX,
                ev@ == buf@.subrange(1, k as int),
            decreases buf@.len() - k,
        {
            ev.push(buf[k]);
            k = k + 1;
            assert(ev@ =~= buf@.subrange(1, k as int));
        }
        Some(ev)
    } else {
        None
    };
    io.write_reg(base.wrapping_add(QCA_IRQ_CLEAR), status);
    proof {
        let tt = rx_pairs(base, lsrs, vals) + (if vals.len() < QCA_RX_MAX { rx_events(base, stop, 0) } else { seq![] });
        assert(rx_drain(base, lsrs, vals, stop, tt));
        assert(io.trace() =~= old(io).trace() + qca_irq_events(base, status, tt));
        assert(rx_drain(tbl.hw@[idx as int].base, lsrs, vals, stop, tt));
        assert(io.trace() == old(io).trace() + qca_irq_events(tbl.hw@[idx as int].base, status, tt));
    }
    r
}

} // verus!
