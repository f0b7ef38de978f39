//! USB Bluetooth dongles, with the USB host controller's endpoints modelled
//! as memory-mapped FIFOs. Register offsets are relative to the port base.
use vstd::prelude::*;
use crate::bluetooth::h4::{HCI_ACLDATA_PKT, HCI_COMMAND_PKT};
use crate::bluetooth::hci_uart::first_unused;
use crate::clk::mmio::{IoEvent, RegisterIo, bit_wait, poll_bit, reads, rmw_events, rmw_reg, writes};
use crate::error::KernelError;

verus! {

/// Command register.
pub const USB_CMD_REG: u64 = 0x0000;
/// Status register.
pub const USB_STATUS_REG: u64 = 0x0004;
/// Control endpoint data FIFO.
pub const USB_EP0_DATA: u64 = 0x0010;
/// Control endpoint transfer length.
pub const USB_EP0_LEN: u64 = 0x0014;
/// Interrupt endpoint (events) data FIFO.
pub const USB_EP1_DATA: u64 = 0x0020;
/// Interrupt endpoint status (event length).
pub const USB_EP1_STATUS: u64 = 0x0024;
/// Bulk OUT data FIFO.
pub const USB_EP2_TX_DATA: u64 = 0x0030;
/// Bulk OUT length.
pub const USB_EP2_TX_LEN: u64 = 0x0034;
/// Bulk IN data FIFO.
pub const USB_EP2_RX_DATA: u64 = 0x0040;
/// Bulk IN length.
pub const USB_EP2_RX_LEN: u64 = 0x0044;
/// Interrupt status.
pub const USB_IRQ_STATUS: u64 = 0x0100;
/// Interrupt mask.
pub const USB_IRQ_MASK: u64 = 0x0104;
/// Interrupt clear.
pub const USB_IRQ_CLEAR: u64 = 0x0108;

/// Command: reset.
pub const USB_CMD_RESET: u32 = 0x01;
/// Command: run.
pub const USB_CMD_RUN: u32 = 0x02;
/// Status: device ready.
pub const USB_ST_READY: u32 = 0x01;
/// Status: control transfer done.
pub const USB_ST_EP0_DONE: u32 = 0x02;
/// Interrupt: HCI event on the interrupt endpoint.
pub const USB_IRQ_EVENT: u32 = 0x01;
/// Interrupt: ACL data on the bulk IN endpoint.
pub const USB_IRQ_ACL_RX: u32 = 0x02;

/// Polls of the control-transfer-done flag.
pub const EP0_POLLS: u32 = 5000;
/// Polls of the device-ready flag when opening.
pub const READY_POLLS: u32 = 50_000;
/// Largest event delivered.
pub const EVENT_BUF: usize = 256;
/// Largest ACL packet delivered.
pub const ACL_BUF: usize = 1024;

/// Number of dongles the table holds.
pub const MAX_BTUSB: usize = 4;

/// Per-dongle state.
#[derive(Clone, Copy)]
pub struct BtUsbHw {
    pub base: u64,
    pub ready: bool,
    pub used: bool,
}

impl BtUsbHw {
    /// An unused entry.
    pub fn empty() -> (r: Self)
        ensures
            r.base == 0 && !r.ready && !r.used,
    {
        BtUsbHw { base: 0, ready: false, used: false }
    }
}

/// The USB dongles.
pub struct BtUsbTable {
    pub hw: Vec<BtUsbHw>,
}

impl BtUsbTable {
    pub open spec fn wf(&self) -> bool {
        self.hw@.len() == MAX_BTUSB
    }

    /// All entries unused.
    pub fn new() -> (r: Self)
        ensures
            r.wf(),
            forall|i: int| 0 <= i < MAX_BTUSB ==> !(#[trigger] r.hw@[i]).used,
    {
        let mut hw: Vec<BtUsbHw> = Vec::new();
        let mut i: usize = 0;
        while i < MAX_BTUSB
            invariant
                i <= MAX_BTUSB,
                hw@.len() == i,
                forall|j: int| 0 <= j < i ==> !(#[trigger] hw@[j]).used,
            decreases MAX_BTUSB - i,
        {
            hw.push(BtUsbHw::empty());
            i = i + 1;
        }
        BtUsbTable { hw }
    }
}

/// Claim the first unused entry for a dongle at `base`;
/// `ResourceExhausted` when all are in use.
pub fn alloc_hw(tbl: &mut BtUsbTable, base: u64) -> (r: Result<u8, KernelError>)
    requires
        old(tbl).wf(),
    ensures
        final(tbl).wf(),
        first_unused(|i: int| old(tbl).hw@[i].used, MAX_BTUSB as int, 0) is None ==> (r matches Err(
            KernelError::ResourceExhausted,
        )) && final(tbl).hw@ == old(tbl).hw@,
        first_unused(|i: int| old(tbl).hw@[i].used, MAX_BTUSB as int, 0) matches Some(k) ==> r == Ok::<u8, KernelError>(
            k as u8,
        ) && final(tbl).hw@ == old(tbl).hw@.update(k, BtUsbHw { base, ready: false, used: true }),
{
    let ghost used = |i: int| old(tbl).hw@[i].used;
    let mut i: usize = 0;
    while i < MAX_BTUSB
        invariant
            tbl.wf(),
            tbl.hw@ == old(tbl).hw@,
            used == (|i: int| old(tbl).hw@[i].used),
            i <= MAX_BTUSB,
            first_unused(used, MAX_BTUSB as int, i as int) == first_unused(used, MAX_BTUSB as int, 0),
        decreases MAX_BTUSB - i,
    {
        if !tbl.hw[i].used {
            tbl.hw.set(i, BtUsbHw { base, ready: false, used: true });
            return Ok(i as u8);
        }
        i = i + 1;
    }
    Err(KernelError::ResourceExhausted)
}

/// The little-endian word made of the bytes of `chunk` at `start` (up to
/// four of them; missing bytes are 0).
pub open spec fn le_word(chunk: Seq<u8>, start: int) -> u32 {
    let b = |k: int| if start + k < chunk.len() { chunk[start + k] as int } else { 0int };
    (b(0) + b(1) * 0x100 + b(2) * 0x1_0000 + b(3) * 0x100_0000) as u32
}

/// Packs the bytes of `data` at `start` (up to four) into a little-endian word.
pub fn pack_le_word(data: &[u8], start: usize) -> (w: u32)
    requires
        start <= data@.len(),
    ensures
        w == le_word(data@, start as int),
{
    let mut w: u32 = 0;
    let mut k: usize = 4;
    while k > 0
        invariant
            k <= 4,
            start <= data@.len(),
            w as int == {
                let b = |j: int| if start + j < data@.len() { data@[start + j] as int } else { 0int };
                if k == 4 {
                    0int
                } else if k == 3 {
                    b(3)
                } else if k == 2 {
                    b(2) + b(3) * 0x100
                } else if k == 1 {
                    b(1) + b(2) * 0x100 + b(3) * 0x1_0000
                } else {
                    b(0) + b(1) * 0x100 + b(2) * 0x1_0000 + b(3) * 0x100_0000
                }
            },
        decreases k,
    {
        k = k - 1;
        let byte: u32 = if start < data.len() && k < data.len() - start {
            data[start + k] as u32
        } else {
            0
        };
        assert(w < 0x100_0000);
        w = w * 0x100 + byte;
    }
    w
}

/// Writes `data[start..]` to a FIFO register as little-endian words, four
/// bytes at a time (the last word zero-padded).
fn write_words<R: RegisterIo>(io: &mut R, addr: u64, data: &[u8], start: usize)
    requires
        start <= data@.len(),
    ensures
        final(io).trace() == old(io).trace() + writes(addr, out_words(data@, start as int)),
{
    let n: usize = (data.len() - start) / 4 + if (data.len() - start) % 4 == 0 { 0 } else { 1 };
    assert(n == out_words(data@, start as int).len());
    assert(4 * n <= data@.len() - start + 3);
    let mut k: usize = 0;
    assert(writes(addr, out_words(data@, start as int).take(0)) =~= Seq::<IoEvent>::empty());
    assert(old(io).trace() + Seq::<IoEvent>::empty() =~= old(io).trace());
    while k < n
        invariant
            start <= data@.len(),
            n == out_words(data@, start as int).len(),
            4 * n <= data@.len() - start + 3,
            data@.len() <= usize::MAX,
            k <= n,
            io.trace() == old(io).trace() + writes(addr, out_words(data@, start as int).take(k as int)),
        decreases n - k,
    {
        let w = pack_le_word(data, start + 4 * k);
        io.write_reg(addr, w);
        proof {
            let ws = out_words(data@, start as int);
            assert(ws[k as int] == w);
            assert(writes(addr, ws.take(k + 1)) =~= writes(addr, ws.take(k as int)).push(IoEvent::Write(addr, w)));
        }
        k = k + 1;
    }
    assert(out_words(data@, start as int).take(n as int) =~= out_words(data@, start as int));
}

/// The words a transfer of `data` from `start` sends: its bytes four at a
/// time, little-endian, the last word padded with zeros.
pub open spec fn out_words(data: Seq<u8>, start: int) -> Seq<u32> {
    let len = data.len() - start;
    Seq::new((len / 4 + if len % 4 == 0 { 0int } else { 1int }) as nat, |k: int| le_word(data, start + 4 * k))
}

/// The accesses of an HCI command of `data` from `start` on the controller
/// at `base`: its length, its words, the EP0 start bit (a
/// read-modify-write that read `cur`), then the completion polls `vals`.
pub open spec fn hci_cmd_events(base: u64, data: Seq<u8>, start: int, cur: u32, vals: Seq<u32>) -> Seq<IoEvent> {
    seq![IoEvent::Write(base.wrapping_add(USB_EP0_LEN), (data.len() - start) as u32)] + writes(
        base.wrapping_add(USB_EP0_DATA), out_words(data, start)) + rmw_events(base.wrapping_add(USB_CMD_REG), cur, 0x04,
        0x04) + reads(base.wrapping_add(USB_STATUS_REG), vals)
}

/// Whether history `after` is `before` followed by an HCI command of
/// `data` from `start` (completion awaited at most [`EP0_POLLS`] polls),
/// which completed exactly when `ok`.
pub open spec fn hci_cmd_sent(base: u64, data: Seq<u8>, start: int, before: Seq<IoEvent>, after: Seq<IoEvent>, ok: bool) -> bool {
    exists|cur: u32, vals: Seq<u32>| #![trigger hci_cmd_events(base, data, start, cur, vals)]
        bit_wait(vals, USB_ST_EP0_DONE, EP0_POLLS as nat, ok) && after == before + hci_cmd_events(base, data, start,
        cur, vals)
}

/// Send an HCI command over the control endpoint and wait (at most
/// [`EP0_POLLS`] polls) for the transfer to finish; `Timeout` otherwise.
pub fn usb_hci_cmd<R: RegisterIo>(io: &mut R, base: u64, data: &[u8], start: usize) -> (r: Result<(), KernelError>)
    requires
        start <= data@.len(),
    ensures
        r is Ok || (r matches Err(KernelError::Timeout)),
        hci_cmd_sent(base, data@, start as int, old(io).trace(), final(io).trace(), r is Ok),
{
    io.write_reg(base.wrapping_add(USB_EP0_LEN), (data.len() - start) as u32);
    write_words(io, base.wrapping_add(USB_EP0_DATA), data, start);
    let ghost t1 = io.trace();
    let w = rmw_reg(io, base.wrapping_add(USB_CMD_REG), 0x04, 0x04);
    let ghost t2 = io.trace();
    let hit = poll_bit(io, base.wrapping_add(USB_STATUS_REG), USB_ST_EP0_DONE, EP0_POLLS);
    let r: Result<(), KernelError> = if hit { Ok(()) } else { Err(KernelError::Timeout) };
    proof {
        let cur = choose|cur: u32| w == crate::clk::mmio::rmw_spec(cur, 0x04, 0x04) && t2 == t1
            + #[trigger] rmw_events(base.wrapping_add(USB_CMD_REG), cur, 0x04, 0x04);
        let vals = choose|vals: Seq<u32>| bit_wait(vals, USB_ST_EP0_DONE, EP0_POLLS as nat, hit) && #[trigger] reads(
            base.wrapping_add(USB_STATUS_REG), vals) == reads(base.wrapping_add(USB_STATUS_REG), vals) && io.trace()
            == t2 + reads(base.wrapping_add(USB_STATUS_REG), vals);
        assert(io.trace() =~= old(io).trace() + hci_cmd_events(base, data@, start as int, cur, vals));
        assert(hci_cmd_sent(base, data@, start as int, old(io).trace(), io.trace(), r is Ok));
    }
    r
}

/// Reset and start the host controller, wait (boundedly) for the device,
/// unmask event and ACL interrupts and mark the dongle ready.
/// The accesses of opening the controller at `base`: reset, run, the
/// ready polls `vals`, then the interrupt mask.
pub open spec fn usb_open_events(base: u64, vals: Seq<u32>) -> Seq<IoEvent> {
    seq![
        IoEvent::Write(base.wrapping_add(USB_CMD_REG), USB_CMD_RESET),
        IoEvent::Write(base.wrapping_add(USB_CMD_REG), USB_CMD_RUN),
    ] + reads(base.wrapping_add(USB_STATUS_REG), vals) + seq![
        IoEvent::Write(base.wrapping_add(USB_IRQ_MASK), USB_IRQ_EVENT | USB_IRQ_ACL_RX),
    ]
}

pub fn btusb_open<R: RegisterIo>(io: &mut R, tbl: &mut BtUsbTable, idx: u8) -> (r: Result<(), KernelError>)
    requires
        old(tbl).wf(),
        (idx as int) < MAX_BTUSB,
    ensures
        r is Ok,
        final(tbl).wf(),
        final(tbl).hw@ == old(tbl).hw@.update(idx as int, BtUsbHw { ready: true, ..old(tbl).hw@[idx as int] }),
        exists|vals: Seq<u32>| #![trigger usb_open_events(old(tbl).hw@[idx as int].base, vals)]
            (bit_wait(vals, USB_ST_READY, READY_POLLS as nat, true) || bit_wait(vals, USB_ST_READY, READY_POLLS as nat,
            false)) && final(io).trace() == old(io).trace() + usb_open_events(old(tbl).hw@[idx as int].base, vals),
{
    let i = idx as usize;
    let base = tbl.hw[i].base;
    io.write_reg(base.wrapping_add(USB_CMD_REG), USB_CMD_RESET);
    io.write_reg(base.wrapping_add(USB_CMD_REG), USB_CMD_RUN);
    let ghost t1 = io.trace();
    let hit = poll_bit(io, base.wrapping_add(USB_STATUS_REG), USB_ST_READY, READY_POLLS);
    let ghost t2 = io.trace();
    io.write_reg(base.wrapping_add(USB_IRQ_MASK), USB_IRQ_EVENT | USB_IRQ_ACL_RX);
    proof {
        let vals = choose|vals: Seq<u32>| bit_wait(vals, USB_ST_READY, READY_POLLS as nat, hit) && #[trigger] reads(
            base.wrapping_add(USB_STATUS_REG), vals) == reads(base.wrapping_add(USB_STATUS_REG), vals) && t2 == t1
            + reads(base.wrapping_add(USB_STATUS_REG), vals);
        assert(io.trace() =~= old(io).trace() + usb_open_events(base, vals));
    }
    let mut h = tbl.hw[i];
    h.ready = true;
    tbl.hw.set(i, h);
    Ok(())
}

/// Mask interrupts, reset the host controller and mark the dongle not ready.
pub fn btusb_close<R: RegisterIo>(io: &mut R, tbl: &mut BtUsbTable, idx: u8)
    requires
        old(tbl).wf(),
        (idx as int) < MAX_BTUSB,
    ensures
        final(tbl).wf(),
        final(tbl).hw@ == old(tbl).hw@.update(idx as int, BtUsbHw { ready: false, ..old(tbl).hw@[idx as int] }),
        final(io).trace() == old(io).trace() + seq![
            IoEvent::Write(old(tbl).hw@[idx as int].base.wrapping_add(USB_IRQ_MASK), 0),
            IoEvent::Write(old(tbl).hw@[idx as int].base.wrapping_add(USB_CMD_REG), USB_CMD_RESET),
        ],
{
    let i = idx as usize;
    let base = tbl.hw[i].base;
    io.write_reg(base.wrapping_add(USB_IRQ_MASK), 0);
    io.write_reg(base.wrapping_add(USB_CMD_REG), USB_CMD_RESET);
    assert(io.trace() =~= old(io).trace() + seq![
        IoEvent::Write(base.wrapping_add(USB_IRQ_MASK), 0),
        IoEvent::Write(base.wrapping_add(USB_CMD_REG), USB_CMD_RESET),
    ]);
    let mut h = tbl.hw[i];
    h.ready = false;
    tbl.hw.set(i, h);
}

/// Send an H4-typed packet: a command over the control endpoint, ACL data
/// over the bulk endpoint. An empty packet is a no-op; another type is
/// refused with `InvalidParameter`.
pub fn btusb_send<R: RegisterIo>(io: &mut R, tbl: &BtUsbTable, idx: u8, data: &[u8]) -> (r: Result<(), KernelError>)
    requires
        tbl.wf(),
        (idx as int) < MAX_BTUSB,
    ensures
        data@.len() == 0 ==> r is Ok,
        data@.len() > 0 && data@[0] == HCI_ACLDATA_PKT ==> r is Ok,
        data@.len() > 0 && data@[0] == HCI_COMMAND_PKT ==> r is Ok || (r matches Err(KernelError::Timeout)),
        data@.len() > 0 && data@[0] != HCI_ACLDATA_PKT && data@[0] != HCI_COMMAND_PKT ==> (r matches Err(
            KernelError::InvalidParameter(_),
        )),
        data@.len() == 0 || (data@[0] != HCI_ACLDATA_PKT && data@[0] != HCI_COMMAND_PKT) ==> final(io).trace()
            == old(io).trace(),
        data@.len() > 0 && data@[0] == HCI_COMMAND_PKT ==> hci_cmd_sent(tbl.hw@[idx as int].base, data@, 1,
            old(io).trace(), final(io).trace(), r is Ok),
        data@.len() > 0 && data@[0] == HCI_ACLDATA_PKT ==> final(io).trace() == old(io).trace() + seq![
            IoEvent::Write(tbl.hw@[idx as int].base.wrapping_add(USB_EP2_TX_LEN), (data@.len() - 1) as u32)] + writes(
            tbl.hw@[idx as int].base.wrapping_add(USB_EP2_TX_DATA), out_words(data@, 1)),
{
    if data.len() == 0 {
        return Ok(());
    }
    let base = tbl.hw[idx as usize].base;
    if data[0] == HCI_COMMAND_PKT {
        usb_hci_cmd(io, base, data, 1)
    } else if data[0] == HCI_ACLDATA_PKT {
        io.write_reg(base.wrapping_add(USB_EP2_TX_LEN), (data.len() - 1) as u32);
        write_words(io, base.wrapping_add(USB_EP2_TX_DATA), data, 1);
        assert(io.trace() =~= old(io).trace() + seq![IoEvent::Write(base.wrapping_add(USB_EP2_TX_LEN), (data@.len()
            - 1) as u32)] + writes(base.wrapping_add(USB_EP2_TX_DATA), out_words(data@, 1)));
        Ok(())
    } else {
        Err(KernelError::InvalidParameter("unknown packet type"))
    }
}

/// The bytes of little-endian `words`, the first `len` of them, zero past
/// the words read.
pub open spec fn words_bytes(words: Seq<u32>, len: int) -> Seq<u8> {
    Seq::new(
        len as nat,
        |j: int| if j / 4 < words.len() { ((words[j / 4] as int / pow256(j % 4)) % 256) as u8 } else { 0u8 },
    )
}

/// 256 to the power `k` for `k` in 0..4.
pub open spec fn pow256(k: int) -> int {
    if k == 0 {
        1
    } else if k == 1 {
        0x100
    } else if k == 2 {
        0x1_0000
    } else {
        0x100_0000
    }
}

/// Unpacks the first `len` bytes of little-endian words.
pub fn unpack_words(words: &Vec<u32>, len: usize) -> (r: Vec<u8>)
    ensures
        r@ == words_bytes(words@, len as int),
{
    let mut r: Vec<u8> = Vec::new();
    let mut j: usize = 0;
    while j < len
        invariant
            j <= len,
            r@.len() == j,
            forall|k: int| 0 <= k < j ==> #[trigger] r@[k] == words_bytes(words@, len as int)[k],
        decreases len - j,
    {
        let q = j / 4;
        let b: u8 = if q < words.len() {
            let w = words[q];
            let sh = j % 4;
            let d: u32 = if sh == 0 {
                1
            } else if sh == 1 {
                0x100
            } else if sh == 2 {
                0x1_0000
            } else {
                0x100_0000
            };
            ((w / d) % 256) as u8
        } else {
            0
        };
        r.push(b);
        j = j + 1;
    }
    assert(r@ =~= words_bytes(words@, len as int));
    r
}

/// The reads of `words`, in order, from FIFO register `addr`.
pub open spec fn fifo_reads(addr: u64, words: Seq<u32>) -> Seq<IoEvent> {
    Seq::new(words.len(), |i: int| IoEvent::Read(addr, words[i]))
}

/// Reads `count` words from a FIFO register.
fn read_words<R: RegisterIo>(io: &mut R, addr: u64, count: usize) -> (v: Vec<u32>)
    ensures
        v@.len() == count,
        final(io).trace() == old(io).trace() + fifo_reads(addr, v@),
{
    let mut v: Vec<u32> = Vec::new();
    let mut i: usize = 0;
    assert(io.trace() =~= old(io).trace() + fifo_reads(addr, v@));
    while i < count
        invariant
            i <= count,
            v@.len() == i,
            io.trace() == old(io).trace() + fifo_reads(addr, v@),
        decreases count - i,
    {
        let w = io.read_reg(addr);
        v.push(w);
        assert(io.trace() =~= old(io).trace() + fifo_reads(addr, v@));
        i = i + 1;
    }
    v
}

/// How many words an event of length byte `raw & 0xFF` takes (at most 64).
pub open spec fn event_words(raw: u32) -> int {
    let len = (raw & 0xFF) as int;
    if len / 4 + 1 < 64 { len / 4 + 1 } else { 64 }
}

/// How many words ACL data of length field `raw & 0xFFFF` takes (at most
/// 256).
pub open spec fn acl_words(raw: u32) -> int {
    let len = (raw & 0xFFFF) as int;
    if len / 4 + 1 < 256 { len / 4 + 1 } else { 256 }
}

/// The bytes of ACL data kept from length field `raw & 0xFFFF`.
pub open spec fn acl_len(raw: u32) -> int {
    let len = (raw & 0xFFFF) as int;
    if len < ACL_BUF { len } else { ACL_BUF as int }
}

/// The register accesses of an interrupt of controller `base` that read
/// status `status`, event length `ev_raw` and event words `ev_words`, ACL
/// length `acl_raw` and ACL words `acl_w`: the status read, the event
/// reads when the event interrupt is pending, the ACL reads when the ACL
/// interrupt is pending, and the write of the status to the clear register.
pub open spec fn irq_events(base: u64, status: u32, ev_raw: u32, ev_words: Seq<u32>, acl_raw: u32, acl_w: Seq<u32>) -> Seq<IoEvent> {
    seq![IoEvent::Read(base.wrapping_add(USB_IRQ_STATUS), status)]
        + (if status & USB_IRQ_EVENT != 0 {
            seq![IoEvent::Read(base.wrapping_add(USB_EP1_STATUS), ev_raw)] + fifo_reads(base.wrapping_add(USB_EP1_DATA), ev_words)
        } else {
            seq![]
        })
        + (if status & USB_IRQ_ACL_RX != 0 {
            seq![IoEvent::Read(base.wrapping_add(USB_EP2_RX_LEN), acl_raw)] + fifo_reads(base.wrapping_add(USB_EP2_RX_DATA), acl_w)
        } else {
            seq![]
        })
        + seq![IoEvent::Write(base.wrapping_add(USB_IRQ_CLEAR), status)]
}

/// What an interrupt with those reads delivers: the event bytes when the
/// event interrupt is pending, the ACL bytes when the ACL one is.
pub open spec fn irq_packets(rx: BtUsbRx, status: u32, ev_raw: u32, ev_words: Seq<u32>, acl_raw: u32, acl_w: Seq<u32>) -> bool {
    &&& (status & USB_IRQ_EVENT != 0) == (rx.event is Some)
    &&& (status & USB_IRQ_ACL_RX != 0) == (rx.acl is Some)
    &&& status & USB_IRQ_EVENT != 0 ==> ev_words.len() == event_words(ev_raw)
        && rx.event.unwrap()@ == words_bytes(ev_words, (ev_raw & 0xFF) as int)
    &&& status & USB_IRQ_ACL_RX != 0 ==> acl_w.len() == acl_words(acl_raw)
        && rx.acl.unwrap()@ == words_bytes(acl_w, acl_len(acl_raw))
}

/// Packets an interrupt delivers: an HCI event and ACL data, each present
/// when its interrupt is pending.
pub struct BtUsbRx {
    pub event: Option<Vec<u8>>,
    pub acl: Option<Vec<u8>>,
}

/// Interrupt handler: read the pending HCI event (its length from the
/// endpoint status, at most [`EVENT_BUF`] bytes) and ACL data (at most
/// [`ACL_BUF`] bytes), then acknowledge the interrupts.
pub fn btusb_irq_handler<R: RegisterIo>(io: &mut R, tbl: &BtUsbTable, idx: u8) -> (r: BtUsbRx)
    requires
        tbl.wf(),
        (idx as int) < MAX_BTUSB,
    ensures
        r.event matches Some(e) ==> e@.len() < EVENT_BUF,
        r.acl matches Some(a) ==> a@.len() <= ACL_BUF,
        exists|status: u32, ev_raw: u32, ev_words: Seq<u32>, acl_raw: u32, acl_w: Seq<u32>|
            #![trigger irq_events(tbl.hw@[idx as int].base, status, ev_raw, ev_words, acl_raw, acl_w)]
            final(io).trace() == old(io).trace() + irq_events(tbl.hw@[idx as int].base, status, ev_raw, ev_words, acl_raw, acl_w)
                && irq_packets(r, status, ev_raw, ev_words, acl_raw, acl_w),
{
    let base = tbl.hw[idx as usize].base;
    let status = io.read_reg(base.wrapping_add(USB_IRQ_STATUS));
    let ghost t1 = io.trace();
    let mut event: Option<Vec<u8>> = None;
    let mut acl: Option<Vec<u8>> = None;
    let ghost mut ev_raw: u32 = 0;
    let ghost mut ev_words: Seq<u32> = seq![];
    let ghost mut acl_raw: u32 = 0;
    let ghost mut acl_w: Seq<u32> = seq![];
    if status & USB_IRQ_EVENT != 0 {
        let raw = io.read_reg(base.wrapping_add(USB_EP1_STATUS));
        assert(raw & 0xFF <= 0xFF) by (bit_vector);
        let len = (raw & 0xFF) as usize;
        let cnt = if len / 4 + 1 < 64 { len / 4 + 1 } else { 64 };
        let words = read_words(io, base.wrapping_add(USB_EP1_DATA), cnt);
        event = Some(unpack_words(&words, len));
        proof {
            ev_raw = raw;
            ev_words = words@;
        }
    }
    let ghost t2 = io.trace();
    if status & USB_IRQ_ACL_RX != 0 {
        let raw = io.read_reg(base.wrapping_add(USB_EP2_RX_LEN));
        let len = (raw & 0xFFFF) as usize;
        let cnt = if len / 4 + 1 < 256 { len / 4 + 1 } else { 256 };
        let words = read_words(io, base.wrapping_add(USB_EP2_RX_DATA), cnt);
        let n = if len < ACL_BUF { len } else { ACL_BUF };
        acl = Some(unpack_words(&words, n));
        proof {
            acl_raw = raw;
            acl_w = words@;
        }
    }
    let ghost t3 = io.trace();
    io.write_reg(base.wrapping_add(USB_IRQ_CLEAR), status);
    let rx = BtUsbRx { event, acl };
    proof {
        let evs = if status & USB_IRQ_EVENT != 0 {
            seq![IoEvent::Read(base.wrapping_add(USB_EP1_STATUS), ev_raw)] + fifo_reads(base.wrapping_add(USB_EP1_DATA), ev_words)
        } else {
            seq![]
        };
        let acs = if status & USB_IRQ_ACL_RX != 0 {
            seq![IoEvent::Read(base.wrapping_add(USB_EP2_RX_LEN), acl_raw)] + fifo_reads(base.wrapping_add(USB_EP2_RX_DATA), acl_w)
        } else {
            seq![]
        };
        assert(t1 =~= old(io).trace() + seq![IoEvent::Read(base.wrapping_add(USB_IRQ_STATUS), status)]);
        assert(t2 =~= t1 + evs);
        assert(t3 =~= t2 + acs);
        assert(io.trace() =~= old(io).trace() + irq_events(base, status, ev_raw, ev_words, acl_raw, acl_w));
        assert(irq_packets(rx, status, ev_raw, ev_words, acl_raw, acl_w));
    }
    rx
}

} // verus!
