//! What the chip drivers share: slot tables of chip state, channel and
//! frequency numbering, little-endian register words, and the scan result
//! a scan-done interrupt reports.
use vstd::prelude::*;
use crate::clk::mmio::{IoEvent, RegisterIo, reads};
pub use crate::clk::mmio::bit_wait;
use crate::error::KernelError;
use crate::wireless::{Band, Channel, ScanResult, no_channel};

verus! {

/// Chips of one kind handled at once.
pub const MAX_CHIPS: usize = 4;
/// Highest base address a chip may sit at (its registers span 16 KiB).
pub const CHIP_BASE_LIMIT: u64 = 0xFFFF_FFFF_FFFF_0000;

/// The per-chip state a driver keeps in its slot table.
pub trait HwSlot: Sized {
    /// Whether the slot is taken.
    spec fn is_used(&self) -> bool;

    /// The chip's base address.
    spec fn base_of(&self) -> u64;

    /// The state of a newly taken slot for a chip at `base`.
    spec fn fresh_spec(base: u64) -> Self;

    fn used(&self) -> (b: bool)
        ensures
            b == self.is_used();

    fn base(&self) -> (b: u64)
        ensures
            b == self.base_of();

    fn fresh(base: u64) -> (s: Self)
        ensures
            s == Self::fresh_spec(base),
            s.is_used() && s.base_of() == base;
}

/// Four slots, every base within the limit.
pub open spec fn slots_wf<H: HwSlot>(t: Seq<H>) -> bool {
    t.len() == MAX_CHIPS && forall|i: int| 0 <= i < t.len() ==> (#[trigger] t[i]).base_of() <= CHIP_BASE_LIMIT
}

/// Position of the first free slot from `i` on.
pub open spec fn first_unused<H: HwSlot>(t: Seq<H>, i: int) -> Option<int>
    decreases t.len() - i,
{
    if i < 0 || i >= t.len() {
        None
    } else if !t[i].is_used() {
        Some(i)
    } else {
        first_unused(t, i + 1)
    }
}

pub proof fn lemma_first_unused<H: HwSlot>(t: Seq<H>, i: int)
    requires
        0 <= i,
    ensures
        first_unused(t, i) matches Some(k) ==> i <= k < t.len() && !t[k].is_used(),
    decreases t.len() - i,
{
    if 0 <= i < t.len() && t[i].is_used() {
        lemma_first_unused(t, i + 1);
    }
}

/// Takes the first free slot for a chip at `base` and returns its
/// position; `ResourceExhausted` when all are taken.
pub fn alloc_slot<H: HwSlot>(table: &mut Vec<H>, base: u64) -> (r: Result<u8, KernelError>)
    requires
        slots_wf(old(table)@),
        base <= CHIP_BASE_LIMIT,
    ensures
        slots_wf(final(table)@),
        first_unused(old(table)@, 0) is None ==> r == Err::<u8, KernelError>(KernelError::ResourceExhausted)
            && final(table)@ == old(table)@,
        first_unused(old(table)@, 0) matches Some(k) ==> r == Ok::<u8, KernelError>(k as u8)
            && final(table)@ == old(table)@.update(k, H::fresh_spec(base)),
{
    proof { lemma_first_unused(table@, 0); }
    let mut i: usize = 0;
    while i < table.len()
        invariant
            slots_wf(table@),
            base <= CHIP_BASE_LIMIT,
            table@ == old(table)@,
            i <= table@.len(),
            first_unused(table@, 0) == first_unused(table@, i as int),
        decreases table.len() - i,
    {
        if !table[i].used() {
            let s = H::fresh(base);
            table.set(i, s);
            proof {
                assert forall|j: int| 0 <= j < table@.len() implies (#[trigger] table@[j]).base_of() <= CHIP_BASE_LIMIT by {
                    if j != i as int {
                        assert(table@[j] == old(table)@[j]);
                    }
                }
            }
            return Ok(i as u8);
        }
        i = i + 1;
    }
    Err(KernelError::ResourceExhausted)
}

/// Base address of the chip in slot `hw_idx`; 0 (no chip) for a position
/// past the table or a base beyond the limit.
pub open spec fn slot_base_of<H: HwSlot>(table: Seq<H>, hw_idx: u8) -> u64 {
    if (hw_idx as int) < table.len() && table[hw_idx as int].base_of() <= CHIP_BASE_LIMIT {
        table[hw_idx as int].base_of()
    } else {
        0
    }
}

/// Base address of the chip in slot `hw_idx` (see `slot_base_of`).
pub fn slot_base<H: HwSlot>(table: &Vec<H>, hw_idx: u8) -> (b: u64)
    ensures
        b <= CHIP_BASE_LIMIT,
        b == slot_base_of(table@, hw_idx),
{
    let idx = hw_idx as usize;
    if idx >= table.len() {
        return 0;
    }
    let b = table[idx].base();
    if b > CHIP_BASE_LIMIT { 0 } else { b }
}

/// Reads the register at `off` from the chip at `base`; 0 when there is
/// no chip (base 0).
pub fn chip_read<R: RegisterIo>(io: &mut R, base: u64, off: u64) -> (r: u32)
    requires
        base <= CHIP_BASE_LIMIT,
        off < 0x1_0000,
    ensures
        base == 0 ==> r == 0 && final(io).trace() == old(io).trace(),
        base != 0 ==> final(io).trace() == old(io).trace().push(IoEvent::Read((base + off) as u64, r)),
{
    if base == 0 {
        return 0;
    }
    io.read_reg(base + off)
}

/// Writes the register at `off` of the chip at `base`; nothing when there
/// is no chip (base 0).
pub fn chip_write<R: RegisterIo>(io: &mut R, base: u64, off: u64, val: u32)
    requires
        base <= CHIP_BASE_LIMIT,
        off < 0x1_0000,
    ensures
        final(io).trace() == old(io).trace() + chip_writes(base, off, seq![val]),
{
    if base == 0 {
        assert(old(io).trace() + chip_writes(base, off, seq![val]) =~= old(io).trace());
        return;
    }
    io.write_reg(base + off, val);
    assert(io.trace() =~= old(io).trace() + chip_writes(base, off, seq![val]));
}

/// The writes of `vals`, in order, to register `off` of the chip at
/// `base` (none for an absent chip, base 0).
pub open spec fn chip_writes(base: u64, off: u64, vals: Seq<u32>) -> Seq<IoEvent> {
    if base == 0 {
        seq![]
    } else {
        Seq::new(vals.len(), |i: int| IoEvent::Write((base + off) as u64, vals[i]))
    }
}

/// The reads of register `off` of the chip at `base` that gave `vals`
/// (none for an absent chip).
pub open spec fn chip_reads(base: u64, off: u64, vals: Seq<u32>) -> Seq<IoEvent> {
    if base == 0 {
        seq![]
    } else {
        reads((base + off) as u64, vals)
    }
}

/// Polls register `off` of the chip at `base` until `bit` is set, at most
/// `limit` times; returns whether it was. An absent chip never sets it.
pub fn wait_bit<R: RegisterIo>(io: &mut R, base: u64, off: u64, bit: u32, limit: u32) -> (hit: bool)
    requires
        base <= CHIP_BASE_LIMIT,
        off < 0x1_0000,
    ensures
        exists|vals: Seq<u32>| #![trigger chip_reads(base, off, vals)]
            bit_wait(vals, bit, limit as nat, hit) && final(io).trace() == old(io).trace() + chip_reads(base, off, vals),
{
    let ghost mut vals: Seq<u32> = seq![];
    let mut k: u32 = 0;
    assert(old(io).trace() + chip_reads(base, off, vals) =~= old(io).trace());
    while k < limit
        invariant
            base <= CHIP_BASE_LIMIT,
            off < 0x1_0000,
            k <= limit,
            vals.len() == k,
            forall|i: int| 0 <= i < vals.len() ==> #[trigger] vals[i] & bit == 0,
            io.trace() == old(io).trace() + chip_reads(base, off, vals),
        decreases limit - k,
    {
        let v = chip_read(io, base, off);
        proof {
            assert(chip_reads(base, off, vals.push(v)) =~= if base == 0 {
                chip_reads(base, off, vals)
            } else {
                chip_reads(base, off, vals).push(IoEvent::Read((base + off) as u64, v))
            });
            vals = vals.push(v);
            assert(io.trace() =~= old(io).trace() + chip_reads(base, off, vals));
        }
        if v & bit != 0 {
            assert(bit_wait(vals, bit, limit as nat, true));
            return true;
        }
        k = k + 1;
    }
    assert(bit_wait(vals, bit, limit as nat, false));
    false
}

/// The words of a frame, in order.
pub open spec fn frame_words(data: Seq<u8>) -> Seq<u32> {
    Seq::new(((data.len() + 3) / 4) as nat, |k: int| frame_word(data, k))
}

/// Read-modify-write of the register at `off` (bits in `mask` from `val`);
/// nothing when there is no chip.
pub fn chip_rmw<R: RegisterIo>(io: &mut R, base: u64, off: u64, mask: u32, val: u32)
    requires
        base <= CHIP_BASE_LIMIT,
        off < 0x1_0000,
    ensures
        exists|cur: u32| final(io).trace() == old(io).trace() + #[trigger] chip_rmw_events(base, off, cur, mask, val),
{
    if base == 0 {
        assert(old(io).trace() + chip_rmw_events(base, off, 0, mask, val) =~= old(io).trace());
        return;
    }
    let w = crate::clk::mmio::rmw_reg(io, base + off, mask, val);
    proof {
        let cur = choose|cur: u32| w == crate::clk::mmio::rmw_spec(cur, mask, val) && #[trigger] io.trace()
            == old(io).trace() + crate::clk::mmio::rmw_events((base + off) as u64, cur, mask, val);
        assert(io.trace() == old(io).trace() + chip_rmw_events(base, off, cur, mask, val));
    }
}

/// The accesses of a read-modify-write of register `off` of the chip at
/// `base` that read `cur` (none for an absent chip).
pub open spec fn chip_rmw_events(base: u64, off: u64, cur: u32, mask: u32, val: u32) -> Seq<IoEvent> {
    if base == 0 {
        seq![]
    } else {
        crate::clk::mmio::rmw_events((base + off) as u64, cur, mask, val)
    }
}

/// Centre frequency (MHz) of channel `chan`: 2.4 GHz channels up to 14
/// (14 at 2484), 5 GHz above.
pub open spec fn chan_freq(chan: u16) -> u32 {
    if chan <= 14 {
        if chan == 14 { 2484 } else { (2407 + chan * 5) as u32 }
    } else {
        (5000 + chan * 5) as u32
    }
}

/// Centre frequency of channel `chan` (see `chan_freq`).
pub fn chan_to_freq(chan: u16) -> (f: u32)
    ensures
        f == chan_freq(chan),
{
    if chan <= 14 {
        if chan == 14 { 2484 } else { 2407 + chan as u32 * 5 }
    } else {
        5000 + chan as u32 * 5
    }
}

/// Channel number of a frequency (MHz): the 2.4 GHz channels from 2412 to
/// 2484, 5 GHz from 5180, 0 otherwise.
pub open spec fn freq_chan(freq: u16) -> u16 {
    if 2412 <= freq <= 2484 {
        if freq == 2484 { 14 } else { ((freq - 2407) / 5) as u16 }
    } else if freq >= 5180 {
        ((freq - 5000) / 5) as u16
    } else {
        0
    }
}

/// Channel number of a frequency (see `freq_chan`).
pub fn freq_to_chan(freq: u16) -> (c: u16)
    ensures
        c == freq_chan(freq),
{
    if freq >= 2412 && freq <= 2484 {
        if freq == 2484 { 14 } else { (freq - 2407) / 5 }
    } else if freq >= 5180 {
        (freq - 5000) / 5
    } else {
        0
    }
}

/// The 32-bit little-endian word of four bytes.
pub open spec fn le_word(b0: u8, b1: u8, b2: u8, b3: u8) -> u32 {
    (b0 + 256 * b1 + 65536 * b2 + 16777216 * b3) as u32
}

/// The 32-bit little-endian word of four bytes.
pub fn le_word_of(b0: u8, b1: u8, b2: u8, b3: u8) -> (w: u32)
    ensures
        w == le_word(b0, b1, b2, b3),
{
    (b0 as u32) + 256 * (b1 as u32) + 65536 * (b2 as u32) + 16777216 * (b3 as u32)
}

/// Byte `i` of `data`, 0 past its end.
pub open spec fn byte_or_zero(data: Seq<u8>, i: int) -> u8 {
    if 0 <= i < data.len() { data[i] } else { 0u8 }
}

/// Word `k` of a frame sent four bytes at a time (the last word padded
/// with zeros).
pub open spec fn frame_word(data: Seq<u8>, k: int) -> u32 {
    le_word(byte_or_zero(data, 4 * k), byte_or_zero(data, 4 * k + 1), byte_or_zero(data, 4 * k + 2),
        byte_or_zero(data, 4 * k + 3))
}

fn byte_at(data: &[u8], i: usize) -> (b: u8)
    ensures
        b == byte_or_zero(data@, i as int),
{
    if i < data.len() { data[i] } else { 0 }
}

/// Word `k` of a frame (see `frame_word`).
pub fn frame_word_of(data: &[u8], k: usize) -> (w: u32)
    requires
        4 * k + 3 <= usize::MAX,
    ensures
        w == frame_word(data@, k as int),
{
    le_word_of(byte_at(data, 4 * k), byte_at(data, 4 * k + 1), byte_at(data, 4 * k + 2), byte_at(data, 4 * k + 3))
}

/// Writes the frame's length to `len_off`, then its words in order to the
/// FIFO at `fifo_off`.
pub fn write_frame<R: RegisterIo>(io: &mut R, base: u64, len_off: u64, fifo_off: u64, data: &[u8])
    requires
        base <= CHIP_BASE_LIMIT,
        len_off < 0x1_0000,
        fifo_off < 0x1_0000,
        data@.len() + 3 <= usize::MAX,
    ensures
        final(io).trace() == old(io).trace() + chip_writes(base, len_off, seq![(data@.len() % 0x1_0000_0000) as u32])
            + chip_writes(base, fifo_off, frame_words(data@)),
{
    chip_write(io, base, len_off, (data.len() as u64 % 0x1_0000_0000) as u32);
    let ghost t1 = io.trace();
    let n = (data.len() + 3) / 4;
    let mut k: usize = 0;
    assert(chip_writes(base, fifo_off, frame_words(data@).subrange(0, 0)) =~= Seq::<IoEvent>::empty());
    assert(t1 =~= t1 + Seq::<IoEvent>::empty());
    while k < n
        invariant
            base <= CHIP_BASE_LIMIT,
            fifo_off < 0x1_0000,
            n == (data@.len() + 3) / 4,
            data@.len() + 3 <= usize::MAX,
            k <= n,
            io.trace() == t1 + chip_writes(base, fifo_off, frame_words(data@).subrange(0, k as int)),
        decreases n - k,
    {
        let w = frame_word_of(data, k);
        chip_write(io, base, fifo_off, w);
        k = k + 1;
        assert(chip_writes(base, fifo_off, frame_words(data@).subrange(0, k as int)) =~= chip_writes(base, fifo_off,
            frame_words(data@).subrange(0, k - 1)) + chip_writes(base, fifo_off, seq![w]));
    }
    assert(frame_words(data@).subrange(0, n as int) =~= frame_words(data@));
}

/// The band of a frequency: 2.4 GHz below 5000 MHz, 5 GHz from there.
pub open spec fn band_of(freq: u32) -> Band {
    if freq < 5000 { Band::Band2GHz } else { Band::Band5GHz }
}

/// The scan result of a scan-done interrupt: the channel (with its
/// frequency and band), a 20 dBm limit, the signal, marked valid.
pub open spec fn irq_scan_result(base: ScanResult, chan: u16, freq: u32, band: Band, rssi: i8) -> ScanResult {
    ScanResult {
        channel: Channel { center_freq: freq, hw_value: chan, max_power: 2000, flags: 0, band },
        signal_dbm: rssi,
        valid: true,
        ..base
    }
}

/// The scan result a scan-done interrupt reports (see `irq_scan_result`,
/// built on an empty entry).
pub fn scan_result_for(chan: u16, freq: u32, band: Band, rssi: i8) -> (r: ScanResult)
    ensures
        exists|e: ScanResult| r == irq_scan_result(e, chan, freq, band, rssi) && !e.valid && e.ssid_len == 0
            && e.channel == no_channel(),
{
    let e = ScanResult::empty();
    let mut result = e;
    result.channel = Channel { center_freq: freq, hw_value: chan, max_power: 2000, flags: 0, band };
    result.signal_dbm = rssi;
    result.valid = true;
    assert(result == irq_scan_result(e, chan, freq, band, rssi));
    result
}

} // verus!
