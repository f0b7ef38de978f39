//! HCI over a PL011-style UART with H4 framing.
//!
//! Register programming goes through [`RegisterIo`]. The polling loops that
//! wait on the UART's FIFO flags (transmit, flush, the receive interrupt
//! loop) have no bound and are run by the caller, which feeds each received
//! byte to [`hci_uart_rx_byte`].
use vstd::prelude::*;
use crate::bluetooth::h4::{H4Packet, H4Rx, h4_push_byte, h4_step};
use crate::clk::mmio::{IoEvent, RegisterIo};
use crate::error::KernelError;

verus! {

/// Data register (receive and transmit).
pub const UART_DR: u64 = 0x0000;
/// Flag register.
pub const UART_FR: u64 = 0x0018;
/// Integer baud rate divisor.
pub const UART_IBRD: u64 = 0x0024;
/// Fractional baud rate divisor.
pub const UART_FBRD: u64 = 0x0028;
/// Line control.
pub const UART_LCRH: u64 = 0x002C;
/// Control register.
pub const UART_CR: u64 = 0x0030;
/// Interrupt mask.
pub const UART_IMSC: u64 = 0x0038;
/// Raw interrupt status.
pub const UART_RIS: u64 = 0x003C;
/// Interrupt clear.
pub const UART_ICR: u64 = 0x0044;

/// Flag: transmit FIFO full.
pub const FR_TXFF: u32 = 0x20;
/// Flag: receive FIFO empty.
pub const FR_RXFE: u32 = 0x10;
/// Flag: UART busy.
pub const FR_BUSY: u32 = 0x08;

/// Control: UART enable.
pub const CR_UARTEN: u32 = 0x001;
/// Control: transmit enable.
pub const CR_TXE: u32 = 0x100;
/// Control: receive enable.
pub const CR_RXE: u32 = 0x200;

/// Interrupt: receive.
pub const INT_RX: u32 = 0x10;
/// Interrupt: transmit.
pub const INT_TX: u32 = 0x20;
/// Interrupt: receive timeout.
pub const INT_RT: u32 = 0x40;

/// UART reference clock in Hz.
pub const UART_CLK_HZ: u32 = 48_000_000;

/// Number of UART controllers the table holds.
pub const MAX_HCI_UART: usize = 4;

/// Per-controller hardware state.
#[derive(Clone, Copy)]
pub struct HciUartHw {
    pub base: u64,
    pub baud: u32,
    pub used: bool,
}

impl HciUartHw {
    /// An unused entry.
    pub fn empty() -> (r: Self)
        ensures
            r.base == 0 && r.baud == 115200 && !r.used,
    {
        HciUartHw { base: 0, baud: 115200, used: false }
    }
}

/// The UART controllers and their H4 reassemblers.
pub struct HciUartTable {
    pub hw: Vec<HciUartHw>,
    pub rx: Vec<H4Rx>,
}

/// The first index at or after `i` whose entry is unused.
pub open spec fn first_unused(used: spec_fn(int) -> bool, n: int, i: int) -> Option<int>
    decreases n - i,
{
    if i < 0 || i >= n {
        None
    } else if !used(i) {
        Some(i)
    } else {
        first_unused(used, n, i + 1)
    }
}

impl HciUartTable {
    pub open spec fn wf(&self) -> bool {
        &&& self.hw@.len() == MAX_HCI_UART
        &&& self.rx@.len() == MAX_HCI_UART
        &&& forall|i: int| 0 <= i < MAX_HCI_UART ==> (#[trigger] self.rx@[i]).wf()
    }

    /// All entries unused, all reassemblers idle.
    pub fn new() -> (r: Self)
        ensures
            r.wf(),
            forall|i: int| 0 <= i < MAX_HCI_UART ==> !(#[trigger] r.hw@[i]).used,
    {
        let mut hw: Vec<HciUartHw> = Vec::new();
        let mut rx: Vec<H4Rx> = Vec::new();
        let mut i: usize = 0;
        while i < MAX_HCI_UART
            invariant
                i <= MAX_HCI_UART,
                hw@.len() == i,
                rx@.len() == i,
                forall|j: int| 0 <= j < i ==> !(#[trigger] hw@[j]).used,
                forall|j: int| 0 <= j < i ==> (#[trigger] rx@[j]).wf(),
            decreases MAX_HCI_UART - i,
        {
            hw.push(HciUartHw::empty());
            rx.push(H4Rx::new());
            i = i + 1;
        }
        HciUartTable { hw, rx }
    }
}

/// Claim the first unused controller entry for a UART at `base` running
/// at `baud`; `ResourceExhausted` when all are in use.
pub fn alloc_hw(tbl: &mut HciUartTable, base: u64, baud: u32) -> (r: Result<u8, KernelError>)
    requires
        old(tbl).wf(),
    ensures
        final(tbl).wf(),
        final(tbl).rx@ == old(tbl).rx@,
        first_unused(|i: int| old(tbl).hw@[i].used, MAX_HCI_UART as int, 0) is None ==> (r matches Err(
            KernelError::ResourceExhausted,
        )) && final(tbl).hw@ == old(tbl).hw@,
        first_unused(|i: int| old(tbl).hw@[i].used, MAX_HCI_UART as int, 0) matches Some(k) ==> r == Ok::<
            u8,
            KernelError,
        >(k as u8) && final(tbl).hw@ == old(tbl).hw@.update(k, HciUartHw { base, baud, used: true }),
{
    let ghost used = |i: int| old(tbl).hw@[i].used;
    let mut i: usize = 0;
    while i < MAX_HCI_UART
        invariant
            tbl.wf(),
            tbl.hw@ == old(tbl).hw@,
            tbl.rx@ == old(tbl).rx@,
            used == (|i: int| old(tbl).hw@[i].used),
            i <= MAX_HCI_UART,
            first_unused(used, MAX_HCI_UART as int, i as int) == first_unused(used, MAX_HCI_UART as int, 0),
        decreases MAX_HCI_UART - i,
    {
        if !tbl.hw[i].used {
            tbl.hw.set(i, HciUartHw { base, baud, used: true });
            return Ok(i as u8);
        }
        i = i + 1;
    }
    Err(KernelError::ResourceExhausted)
}

/// The integer and fractional baud rate divisors for `baud` from the
/// 48 MHz reference clock.
pub open spec fn uart_divisors_spec(baud: u32) -> (u32, u32) {
    let d: int = 16 * baud;
    ((48_000_000int / d) as u32, ((3_072_000_000int / d) % 64) as u32)
}

/// Computes [`uart_divisors_spec`].
pub fn uart_divisors(baud: u32) -> (r: (u32, u32))
    requires
        0 < baud,
        16 * baud <= u32::MAX,
    ensures
        r == uart_divisors_spec(baud),
{
    let ibrd = UART_CLK_HZ / (16 * baud);
    let q: u64 = (48_000_000u64 * 64) / (16 * baud as u64);
    let fbrd = (q & 0x3F) as u32;
    assert(q & 0x3F == q % 64) by (bit_vector);
    (ibrd, fbrd)
}

/// The writes that configure the controller at `base` with divisors
/// `ibrd` and `fbrd`: disable, the divisors, 8N1 with FIFOs, enable with
/// transmit and receive, unmask the receive interrupts.
pub open spec fn configure_writes(base: u64, ibrd: u32, fbrd: u32) -> Seq<IoEvent> {
    seq![
        IoEvent::Write(base.wrapping_add(UART_CR), 0),
        IoEvent::Write(base.wrapping_add(UART_IBRD), ibrd),
        IoEvent::Write(base.wrapping_add(UART_FBRD), fbrd),
        IoEvent::Write(base.wrapping_add(UART_LCRH), 0x60),
        IoEvent::Write(base.wrapping_add(UART_CR), CR_UARTEN | CR_TXE | CR_RXE),
        IoEvent::Write(base.wrapping_add(UART_IMSC), INT_RX | INT_RT),
    ]
}

/// Program a controller: disable it, set the divisors for its baud rate,
/// 8N1 with FIFOs, enable it with transmit and receive, and unmask the
/// receive interrupts. Returns the divisors written.
pub fn uart_configure<R: RegisterIo>(io: &mut R, tbl: &HciUartTable, idx: u8) -> (r: (u32, u32))
    requires
        tbl.wf(),
        (idx as int) < MAX_HCI_UART,
        0 < tbl.hw@[idx as int].baud,
        16 * tbl.hw@[idx as int].baud <= u32::MAX,
    ensures
        r == uart_divisors_spec(tbl.hw@[idx as int].baud),
        final(io).trace() == old(io).trace() + configure_writes(tbl.hw@[idx as int].base, r.0, r.1),
{
    let base = tbl.hw[idx as usize].base;
    let baud = tbl.hw[idx as usize].baud;
    io.write_reg(base.wrapping_add(UART_CR), 0);
    let (ibrd, fbrd) = uart_divisors(baud);
    io.write_reg(base.wrapping_add(UART_IBRD), ibrd);
    io.write_reg(base.wrapping_add(UART_FBRD), fbrd);
    io.write_reg(base.wrapping_add(UART_LCRH), 0x60);
    io.write_reg(base.wrapping_add(UART_CR), CR_UARTEN | CR_TXE | CR_RXE);
    io.write_reg(base.wrapping_add(UART_IMSC), INT_RX | INT_RT);
    assert(io.trace() =~= old(io).trace() + configure_writes(base, ibrd, fbrd));
    (ibrd, fbrd)
}

/// Open a controller: configure it.
pub fn hci_uart_open<R: RegisterIo>(io: &mut R, tbl: &HciUartTable, idx: u8) -> (r: Result<(), KernelError>)
    requires
        tbl.wf(),
        (idx as int) < MAX_HCI_UART,
        0 < tbl.hw@[idx as int].baud,
        16 * tbl.hw@[idx as int].baud <= u32::MAX,
    ensures
        r is Ok,
        final(io).trace() == old(io).trace() + configure_writes(tbl.hw@[idx as int].base,
            uart_divisors_spec(tbl.hw@[idx as int].baud).0, uart_divisors_spec(tbl.hw@[idx as int].baud).1),
{
    let _ = uart_configure(io, tbl, idx);
    Ok(())
}

/// Close a controller: mask its interrupts and disable it.
pub fn hci_uart_close<R: RegisterIo>(io: &mut R, tbl: &HciUartTable, idx: u8)
    requires
        tbl.wf(),
        (idx as int) < MAX_HCI_UART,
    ensures
        final(io).trace() == old(io).trace() + seq![
            IoEvent::Write(tbl.hw@[idx as int].base.wrapping_add(UART_IMSC), 0),
            IoEvent::Write(tbl.hw@[idx as int].base.wrapping_add(UART_CR), 0),
        ],
{
    let base = tbl.hw[idx as usize].base;
    io.write_reg(base.wrapping_add(UART_IMSC), 0);
    io.write_reg(base.wrapping_add(UART_CR), 0);
    assert(io.trace() =~= old(io).trace() + seq![
        IoEvent::Write(base.wrapping_add(UART_IMSC), 0),
        IoEvent::Write(base.wrapping_add(UART_CR), 0),
    ]);
}

/// Whether a flag register value shows the transmit FIFO full.
pub fn tx_fifo_full(fr: u32) -> (r: bool)
    ensures
        r == (fr & FR_TXFF != 0),
{
    fr & FR_TXFF != 0
}

/// The accesses of one transmit attempt whose flag-register read gave
/// `fr`: the read, then the write of the byte unless the FIFO was full.
pub open spec fn tx_events(base: u64, fr: u32, byte: u8) -> Seq<IoEvent> {
    seq![IoEvent::Read(base.wrapping_add(UART_FR), fr)] + if fr & FR_TXFF != 0 {
        seq![]
    } else {
        seq![IoEvent::Write(base.wrapping_add(UART_DR), byte as u32)]
    }
}

/// One attempt to transmit `byte` on controller `idx`: unless the flag
/// register shows the transmit FIFO full, the byte is written to the data
/// register. Returns whether it was written; the caller retries until it
/// was.
pub fn uart_tx_byte<R: RegisterIo>(io: &mut R, tbl: &HciUartTable, idx: u8, byte: u8) -> (sent: bool)
    requires
        tbl.wf(),
        (idx as int) < MAX_HCI_UART,
    ensures
        exists|fr: u32| #![trigger tx_events(tbl.hw@[idx as int].base, fr, byte)]
            sent == (fr & FR_TXFF == 0) && final(io).trace() == old(io).trace() + tx_events(
                tbl.hw@[idx as int].base, fr, byte),
{
    let base = tbl.hw[idx as usize].base;
    let fr = io.read_reg(base.wrapping_add(UART_FR));
    if tx_fifo_full(fr) {
        assert(io.trace() =~= old(io).trace() + tx_events(base, fr, byte));
        false
    } else {
        io.write_reg(base.wrapping_add(UART_DR), byte as u32);
        assert(io.trace() =~= old(io).trace() + tx_events(base, fr, byte));
        true
    }
}

/// Whether a raw interrupt status asks for the receive FIFO to be drained.
pub fn rx_pending(ris: u32) -> (r: bool)
    ensures
        r == (ris & (INT_RX | INT_RT) != 0),
{
    ris & (INT_RX | INT_RT) != 0
}

/// Feed one received byte of controller `idx` to its H4 reassembler;
/// returns the packet it completes, if any.
pub fn hci_uart_rx_byte(tbl: &mut HciUartTable, idx: u8, byte: u8) -> (r: Option<H4Packet>)
    requires
        old(tbl).wf(),
        (idx as int) < MAX_HCI_UART,
    ensures
        final(tbl).wf(),
        final(tbl).hw@ == old(tbl).hw@,
        final(tbl).rx@.len() == MAX_HCI_UART,
        forall|j: int| 0 <= j < MAX_HCI_UART && j != idx ==> #[trigger] final(tbl).rx@[j] == old(tbl).rx@[j],
        final(tbl).rx@[idx as int].view_h4() == h4_step(old(tbl).rx@[idx as int].view_h4(), byte).0,
        h4_step(old(tbl).rx@[idx as int].view_h4(), byte).1 is None ==> r is None,
        h4_step(old(tbl).rx@[idx as int].view_h4(), byte).1 matches Some(p) ==> r matches Some(q) && q.pkt_type == p.0
            && q.data@ == p.1,
{
    let i = idx as usize;
    assert(tbl.rx@[i as int].wf());
    let r = h4_push_byte(&mut tbl.rx[i], byte);
    r
}

} // verus!
