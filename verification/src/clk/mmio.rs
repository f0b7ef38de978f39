//! Register access for clock and display hardware.
//!
//! The read-modify-write arithmetic is verified here; the volatile accesses
//! themselves are performed by an implementation of [`RegisterIo`].
use vstd::prelude::*;

verus! {

/// One access made through a hardware interface, in the order made.
#[derive(Clone, Copy)]
pub enum IoEvent {
    /// A register read and the value it gave.
    Read(u64, u32),
    /// A register write and the value written.
    Write(u64, u32),
    /// A clock hardware hook on a clock's `hw` cookie, and whether it
    /// succeeded.
    ClkHook(ClkHookKind, u64, bool),
}

/// The hardware hooks of a clock.
#[derive(Clone, Copy, PartialEq, Eq, Structural)]
pub enum ClkHookKind {
    Prepare,
    Unprepare,
    Enable,
    Disable,
}

/// Access to 32-bit memory-mapped registers. `trace` is the history of the
/// accesses made through it: each read with the value it returned, each
/// write with the value written.
pub trait RegisterIo {
    /// The history of accesses. Every implementation in this library keeps
    /// it; the empty default stands only for implementations made outside
    /// it, which verification does not see.
    closed spec fn trace(&self) -> Seq<IoEvent> {
        Seq::empty()
    }

    /// Read a 32-bit register.
    fn read_reg(&mut self, addr: u64) -> (r: u32)
        ensures
            final(self).trace() == old(self).trace().push(IoEvent::Read(addr, r));

    /// Write a 32-bit register.
    fn write_reg(&mut self, addr: u64, val: u32)
        ensures
            final(self).trace() == old(self).trace().push(IoEvent::Write(addr, val));
}

/// A bank of registers held in memory: a read gives what was last written
/// to the address (0 before any write). It stands in for a device's
/// registers where none is mapped.
pub struct RegisterFile {
    regs: Vec<(u64, u32)>,
    log: Ghost<Seq<IoEvent>>,
}

impl RegisterFile {
    /// A bank with every register 0 and no access made.
    pub fn new() -> (r: RegisterFile)
        ensures
            r.trace() == Seq::<IoEvent>::empty(),
    {
        RegisterFile { regs: Vec::new(), log: Ghost(Seq::empty()) }
    }
}

impl RegisterIo for RegisterFile {
    closed spec fn trace(&self) -> Seq<IoEvent> {
        self.log@
    }

    fn read_reg(&mut self, addr: u64) -> (r: u32) {
        let mut v: u32 = 0;
        let mut i: usize = 0;
        while i < self.regs.len()
            decreases self.regs.len() - i,
        {
            if self.regs[i].0 == addr {
                v = self.regs[i].1;
            }
            i = i + 1;
        }
        self.log = Ghost(self.log@.push(IoEvent::Read(addr, v)));
        v
    }

    fn write_reg(&mut self, addr: u64, val: u32) {
        self.regs.push((addr, val));
        self.log = Ghost(self.log@.push(IoEvent::Write(addr, val)));
    }
}

/// Whether history `after` extends history `before`.
pub open spec fn extends(before: Seq<IoEvent>, after: Seq<IoEvent>) -> bool {
    before.len() <= after.len() && after.subrange(0, before.len() as int) == before
}

/// Extending a history that extends another extends that one too.
pub proof fn lemma_extends_trans(a: Seq<IoEvent>, b: Seq<IoEvent>, c: Seq<IoEvent>)
    requires
        extends(a, b),
        extends(b, c),
    ensures
        extends(a, c),
{
    assert(c.subrange(0, a.len() as int) =~= c.subrange(0, b.len() as int).subrange(0, a.len() as int));
}

/// The reads of register `reg` that returned `vals`, in order.
pub open spec fn reads(reg: u64, vals: Seq<u32>) -> Seq<IoEvent> {
    Seq::new(vals.len(), |i: int| IoEvent::Read(reg, vals[i]))
}

/// Whether `vals` are the values of a wait for `bit`: at most `limit`
/// reads, stopping at the first with the bit set; `hit` when one had it.
pub open spec fn bit_wait(vals: Seq<u32>, bit: u32, limit: nat, hit: bool) -> bool {
    &&& vals.len() <= limit
    &&& forall|i: int| 0 <= i < vals.len() - 1 ==> #[trigger] vals[i] & bit == 0
    &&& hit == (vals.len() > 0 && vals.last() & bit != 0)
    &&& !hit ==> vals.len() == limit
}

/// The writes of `vals`, in order, to register `reg`.
pub open spec fn writes(reg: u64, vals: Seq<u32>) -> Seq<IoEvent> {
    Seq::new(vals.len(), |i: int| IoEvent::Write(reg, vals[i]))
}

/// Polls register `addr` until `bit` is set, at most `limit` times;
/// returns whether it was.
pub fn poll_bit<R: RegisterIo>(io: &mut R, addr: u64, bit: u32, limit: u32) -> (hit: bool)
    ensures
        exists|vals: Seq<u32>| #![trigger reads(addr, vals)]
            bit_wait(vals, bit, limit as nat, hit) && final(io).trace() == old(io).trace() + reads(addr, vals),
{
    let ghost mut vals: Seq<u32> = seq![];
    let mut k: u32 = 0;
    assert(old(io).trace() + reads(addr, vals) =~= old(io).trace());
    while k < limit
        invariant
            k <= limit,
            vals.len() == k,
            forall|i: int| 0 <= i < vals.len() ==> #[trigger] vals[i] & bit == 0,
            io.trace() == old(io).trace() + reads(addr, vals),
        decreases limit - k,
    {
        let v = io.read_reg(addr);
        proof {
            assert(reads(addr, vals.push(v)) =~= reads(addr, vals).push(IoEvent::Read(addr, v)));
            vals = vals.push(v);
            assert(io.trace() =~= old(io).trace() + reads(addr, vals));
        }
        if v & bit != 0 {
            assert(bit_wait(vals, bit, limit as nat, true));
            return true;
        }
        k = k + 1;
    }
    assert(bit_wait(vals, bit, limit as nat, false));
    false
}

/// The accesses recorded in `after` since history `before`.
pub open spec fn since(before: Seq<IoEvent>, after: Seq<IoEvent>) -> Seq<IoEvent> {
    after.subrange(before.len() as int, after.len() as int)
}

/// The accesses of a read-modify-write of `addr` that read `cur`: the read,
/// then the write of `rmw_spec(cur, mask, val)`.
pub open spec fn rmw_events(addr: u64, cur: u32, mask: u32, val: u32) -> Seq<IoEvent> {
    seq![IoEvent::Read(addr, cur), IoEvent::Write(addr, rmw_spec(cur, mask, val))]
}

/// The value a read-modify-write stores: the bits of `val` selected by
/// `mask`, and the bits of `cur` outside it.
pub open spec fn rmw_spec(cur: u32, mask: u32, val: u32) -> u32 {
    (cur & !mask) | (val & mask)
}

/// Computes the value written by [`rmw_reg`] from the current register value.
pub fn rmw_value(cur: u32, mask: u32, val: u32) -> (r: u32)
    ensures
        r == rmw_spec(cur, mask, val),
        forall|b: u32| #![auto] b < 32 && (mask >> b) & 1 == 1 ==> (r >> b) & 1 == (val >> b) & 1,
        forall|b: u32| #![auto] b < 32 && (mask >> b) & 1 == 0 ==> (r >> b) & 1 == (cur >> b) & 1,
{
    let r = (cur & !mask) | (val & mask);
    assert(forall|b: u32| #![auto] b < 32 && (mask >> b) & 1 == 1 ==> (r >> b) & 1 == (val >> b) & 1)
        by (bit_vector)
        requires
            r == (cur & !mask) | (val & mask),
    ;
    assert(forall|b: u32| #![auto] b < 32 && (mask >> b) & 1 == 0 ==> (r >> b) & 1 == (cur >> b) & 1)
        by (bit_vector)
        requires
            r == (cur & !mask) | (val & mask),
    ;
    r
}

/// Read-modify-write: set the bits in `mask` to the corresponding bits of
/// `val`, keeping the others; returns the value written.
pub fn rmw_reg<R: RegisterIo>(io: &mut R, addr: u64, mask: u32, val: u32) -> (written: u32)
    ensures
        exists|cur: u32| written == rmw_spec(cur, mask, val) && #[trigger] final(io).trace() == old(io).trace() + rmw_events(addr, cur, mask, val),
{
    let cur = io.read_reg(addr);
    let w = rmw_value(cur, mask, val);
    io.write_reg(addr, w);
    assert(io.trace() =~= old(io).trace() + rmw_events(addr, cur, mask, val));
    w
}

/// Set the bits in `bits`, keeping the others; returns the value written.
pub fn set_bits<R: RegisterIo>(io: &mut R, addr: u64, bits: u32) -> (written: u32)
    ensures
        exists|cur: u32| written == cur | bits && #[trigger] final(io).trace() == old(io).trace().push(IoEvent::Read(addr, cur)).push(
            IoEvent::Write(addr, cur | bits)),
{
    let cur = io.read_reg(addr);
    let w = cur | bits;
    io.write_reg(addr, w);
    w
}

/// Clear the bits in `bits`, keeping the others; returns the value written.
pub fn clear_bits<R: RegisterIo>(io: &mut R, addr: u64, bits: u32) -> (written: u32)
    ensures
        exists|cur: u32| written == cur & !bits && #[trigger] final(io).trace() == old(io).trace().push(IoEvent::Read(addr, cur)).push(
            IoEvent::Write(addr, cur & !bits)),
{
    let cur = io.read_reg(addr);
    let w = cur & !bits;
    io.write_reg(addr, w);
    w
}

} // verus!
