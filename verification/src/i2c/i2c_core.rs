//! I2C core: messages, adapters with their clients, transfers through an
//! algorithm with retries, clock-pulse bus recovery and the adapter table.
use vstd::prelude::*;

verus! {

/// I2C errors.
#[derive(Debug, Clone, Copy, PartialEq, Eq, Structural)]
pub enum Error {
    InvalidArgument,
    NotSupported,
    AddressInUse,
    NotFound,
    Busy,
    IoError,
    Timeout,
}

pub const I2C_ADDR_7BITS_MAX: u16 = 0x77;
pub const I2C_ADDR_10BITS_MAX: u16 = 0x3ff;
pub const I2C_ADDR_OFFSET_TEN_BIT: u16 = 0xa000;
pub const I2C_ADDR_OFFSET_SLAVE: u16 = 0x1000;

pub const I2C_MAX_STANDARD_MODE_FREQ: u32 = 100_000;
pub const I2C_MAX_FAST_MODE_FREQ: u32 = 400_000;
pub const I2C_MAX_FAST_MODE_PLUS_FREQ: u32 = 1_000_000;
pub const I2C_MAX_TURBO_MODE_FREQ: u32 = 1_400_000;
pub const I2C_MAX_HIGH_SPEED_MODE_FREQ: u32 = 3_400_000;
pub const I2C_MAX_ULTRA_FAST_MODE_FREQ: u32 = 5_000_000;

pub const I2C_CLIENT_TEN: u16 = 0x01;
pub const I2C_CLIENT_SLAVE: u16 = 0x02;
pub const I2C_CLIENT_HOST_NOTIFY: u16 = 0x04;
pub const I2C_CLIENT_WAKE: u16 = 0x08;
pub const I2C_CLIENT_SCCB: u16 = 0x10;

pub const I2C_M_RD: u16 = 0x0001;
pub const I2C_M_TEN: u16 = 0x0010;
pub const I2C_M_DMA_SAFE: u16 = 0x0200;
pub const I2C_M_RECV_LEN: u16 = 0x0400;
pub const I2C_M_NO_RD_ACK: u16 = 0x0800;
pub const I2C_M_IGNORE_NAK: u16 = 0x1000;
pub const I2C_M_REV_DIR_ADDR: u16 = 0x2000;
pub const I2C_M_NOSTART: u16 = 0x4000;
pub const I2C_M_STOP: u16 = 0x8000;

/// Delay around each recovery clock edge, in ns.
pub const RECOVERY_NDELAY: u32 = 5000;
/// Clock pulses sent to free a stuck bus.
pub const RECOVERY_CLK_CNT: u32 = 9;

/// Name of the speed class of a bus frequency.
pub fn i2c_freq_mode_string(bus_freq_hz: u32) -> (s: &'static str)
    ensures
        bus_freq_hz == I2C_MAX_STANDARD_MODE_FREQ ==> s@ == "Standard Mode (100 kHz)"@,
        bus_freq_hz == I2C_MAX_FAST_MODE_FREQ ==> s@ == "Fast Mode (400 kHz)"@,
        bus_freq_hz == I2C_MAX_FAST_MODE_PLUS_FREQ ==> s@ == "Fast Mode Plus (1.0 MHz)"@,
        bus_freq_hz == I2C_MAX_TURBO_MODE_FREQ ==> s@ == "Turbo Mode (1.4 MHz)"@,
        bus_freq_hz == I2C_MAX_HIGH_SPEED_MODE_FREQ ==> s@ == "High Speed Mode (3.4 MHz)"@,
        bus_freq_hz == I2C_MAX_ULTRA_FAST_MODE_FREQ ==> s@ == "Ultra Fast Mode (5.0 MHz)"@,
        bus_freq_hz != I2C_MAX_STANDARD_MODE_FREQ && bus_freq_hz != I2C_MAX_FAST_MODE_FREQ
            && bus_freq_hz != I2C_MAX_FAST_MODE_PLUS_FREQ && bus_freq_hz != I2C_MAX_TURBO_MODE_FREQ
            && bus_freq_hz != I2C_MAX_HIGH_SPEED_MODE_FREQ && bus_freq_hz != I2C_MAX_ULTRA_FAST_MODE_FREQ
            ==> s@ == "Unknown Mode"@,
{
    if bus_freq_hz == I2C_MAX_STANDARD_MODE_FREQ {
        "Standard Mode (100 kHz)"
    } else if bus_freq_hz == I2C_MAX_FAST_MODE_FREQ {
        "Fast Mode (400 kHz)"
    } else if bus_freq_hz == I2C_MAX_FAST_MODE_PLUS_FREQ {
        "Fast Mode Plus (1.0 MHz)"
    } else if bus_freq_hz == I2C_MAX_TURBO_MODE_FREQ {
        "Turbo Mode (1.4 MHz)"
    } else if bus_freq_hz == I2C_MAX_HIGH_SPEED_MODE_FREQ {
        "High Speed Mode (3.4 MHz)"
    } else if bus_freq_hz == I2C_MAX_ULTRA_FAST_MODE_FREQ {
        "Ultra Fast Mode (5.0 MHz)"
    } else {
        "Unknown Mode"
    }
}

/// One segment of a transfer: address, flags and data.
pub struct I2cMsg {
    pub addr: u16,
    pub flags: u16,
    pub buf: Vec<u8>,
}

impl I2cMsg {
    /// A message with the given parts.
    pub fn new(addr: u16, flags: u16, buf: Vec<u8>) -> (m: I2cMsg)
        ensures
            m.addr == addr && m.flags == flags && m.buf@ == buf@,
    {
        I2cMsg { addr, flags, buf }
    }

    /// A read of `len` bytes from `addr` (buffer zeroed).
    pub fn read(addr: u16, len: usize) -> (m: I2cMsg)
        ensures
            m.addr == addr && m.flags == I2C_M_RD,
            m.buf@ == Seq::new(len as nat, |i: int| 0u8),
    {
        let mut buf: Vec<u8> = Vec::new();
        let mut i: usize = 0;
        while i < len
            invariant
                i <= len,
                buf@ == Seq::new(i as nat, |k: int| 0u8),
            decreases len - i,
        {
            buf.push(0u8);
            i = i + 1;
            assert(buf@ =~= Seq::new(i as nat, |k: int| 0u8));
        }
        I2cMsg { addr, flags: I2C_M_RD, buf }
    }

    /// A write of `data` to `addr`.
    pub fn write(addr: u16, data: Vec<u8>) -> (m: I2cMsg)
        ensures
            m.addr == addr && m.flags == 0 && m.buf@ == data@,
    {
        I2cMsg { addr, flags: 0, buf: data }
    }

    /// Whether the message reads.
    pub fn is_read(&self) -> (b: bool)
        ensures
            b == (self.flags & I2C_M_RD != 0),
    {
        self.flags & I2C_M_RD != 0
    }

    /// Whether the message uses a 10-bit address.
    pub fn is_ten_bit(&self) -> (b: bool)
        ensures
            b == (self.flags & I2C_M_TEN != 0),
    {
        self.flags & I2C_M_TEN != 0
    }
}

/// A transfer algorithm (bit-banging, or a controller's own).
pub trait I2cAlgorithm {
    /// The results of the transfers run, in order. Every implementation in
    /// this library keeps it; the empty default stands only for
    /// implementations made outside it, which verification does not see.
    closed spec fn xfers(&self) -> Seq<Result<usize, Error>> {
        Seq::empty()
    }

    /// Performs `msgs` on the bus; returns how many were done.
    fn master_xfer(&mut self, adapter: &I2cAdapter, msgs: &mut Vec<I2cMsg>) -> (r: Result<usize, Error>)
        ensures
            final(self).xfers() == old(self).xfers().push(r);

    /// SMBus transfer; not offered unless the algorithm provides it.
    fn smbus_xfer(
        &mut self,
        adapter: &I2cAdapter,
        addr: u16,
        flags: u16,
        read_write: u8,
        command: u8,
        size: u32,
        data: &mut Vec<u8>,
    ) -> (r: Result<(), Error>)
        default_ensures
            r == Err::<(), Error>(Error::NotSupported),
    {
        Err(Error::NotSupported)
    }

    /// Functionality flags.
    fn functionality(&self) -> u32;
}

/// Whether `run` is the outcomes of one transfer with `retries` retries
/// that ended in `r`: at least one attempt, at most `retries + 1`, every
/// attempt but the last failed, a failed last attempt is the last allowed,
/// and `r` is the last attempt's outcome.
pub open spec fn retry_run(run: Seq<Result<usize, Error>>, retries: u32, r: Result<usize, Error>) -> bool {
    &&& 1 <= run.len() <= retries + 1
    &&& forall|i: int| 0 <= i < run.len() - 1 ==> (#[trigger] run[i]) is Err
    &&& run.last() is Err ==> run.len() == retries + 1
    &&& r == run.last()
}

/// Which bus-recovery hooks an adapter has.
pub struct I2cBusRecoveryInfo {
    pub has_recover_bus: bool,
    pub has_get_scl: bool,
    pub has_set_scl: bool,
    pub has_get_sda: bool,
    pub has_set_sda: bool,
    pub has_prepare_recovery: bool,
    pub has_unprepare_recovery: bool,
}

impl I2cBusRecoveryInfo {
    /// No hooks.
    pub fn new() -> (r: I2cBusRecoveryInfo)
        ensures
            !r.has_recover_bus && !r.has_get_scl && !r.has_set_scl && !r.has_get_sda && !r.has_set_sda
                && !r.has_prepare_recovery && !r.has_unprepare_recovery,
    {
        I2cBusRecoveryInfo {
            has_recover_bus: false,
            has_get_scl: false,
            has_set_scl: false,
            has_get_sda: false,
            has_set_sda: false,
            has_prepare_recovery: false,
            has_unprepare_recovery: false,
        }
    }
}

/// The bus-recovery hooks themselves (line control and timing).
pub trait I2cRecoveryOps {
    /// The line operations made, in order, with the levels read. Every
    /// implementation in this library keeps it; the empty default stands
    /// only for implementations made outside it, which verification does
    /// not see.
    closed spec fn line_ops(&self) -> Seq<RecoveryOp> {
        Seq::empty()
    }

    fn recover_bus(&mut self, adapter: &I2cAdapter) -> (r: Result<(), Error>)
        ensures
            final(self).line_ops() == old(self).line_ops().push(RecoveryOp::RecoverBus(r));

    fn get_scl(&mut self, adapter: &I2cAdapter) -> (r: bool)
        ensures
            final(self).line_ops() == old(self).line_ops().push(RecoveryOp::GetScl(r));

    fn set_scl(&mut self, adapter: &I2cAdapter, val: bool)
        ensures
            final(self).line_ops() == old(self).line_ops().push(RecoveryOp::SetScl(val));

    fn get_sda(&mut self, adapter: &I2cAdapter) -> (r: bool)
        ensures
            final(self).line_ops() == old(self).line_ops().push(RecoveryOp::GetSda(r));

    fn set_sda(&mut self, adapter: &I2cAdapter, val: bool)
        ensures
            final(self).line_ops() == old(self).line_ops().push(RecoveryOp::SetSda(val));

    fn prepare_recovery(&mut self, adapter: &I2cAdapter)
        ensures
            final(self).line_ops() == old(self).line_ops().push(RecoveryOp::Prepare);

    fn unprepare_recovery(&mut self, adapter: &I2cAdapter)
        ensures
            final(self).line_ops() == old(self).line_ops().push(RecoveryOp::Unprepare);

    /// Waits about `ns` nanoseconds.
    fn ndelay(&mut self, ns: u32)
        ensures
            final(self).line_ops() == old(self).line_ops().push(RecoveryOp::Delay(ns));
}

/// One bus-recovery line operation; reads carry the level read.
pub enum RecoveryOp {
    Prepare,
    Unprepare,
    GetScl(bool),
    SetScl(bool),
    GetSda(bool),
    SetSda(bool),
    Delay(u32),
    /// The adapter's own recovery routine, with its result.
    RecoverBus(Result<(), Error>),
}

/// The end of a recovery: the unprepare hook when the adapter has one.
pub open spec fn rec_tail(ri: I2cBusRecoveryInfo, t: Seq<RecoveryOp>, res: Result<(), Error>) -> Option<Result<(), Error>> {
    if (if ri.has_unprepare_recovery { t == seq![RecoveryOp::Unprepare] } else { t.len() == 0 }) {
        Some(res)
    } else {
        None
    }
}

/// The operations of one half clock period that drives SCL to `level`:
/// the edge, a wait, SDA to the same level when it can be driven, a wait.
pub open spec fn rec_edge(ri: I2cBusRecoveryInfo, level: bool) -> Seq<RecoveryOp> {
    seq![RecoveryOp::SetScl(level), RecoveryOp::Delay(if level { RECOVERY_NDELAY } else { RECOVERY_NDELAY / 2 })]
        + (if ri.has_set_sda { seq![RecoveryOp::SetSda(level)] } else { seq![] })
        + seq![RecoveryOp::Delay(RECOVERY_NDELAY / 2)]
}

/// The outcome of the recovery loop from half period `i` with SCL at
/// `scl`, when `t` is exactly the operations that follow; `None` when `t`
/// is not what the loop does. While SCL should be high it is read back,
/// and reading it low gives `Busy`; after each rising edge SDA is read
/// (when it can be), and reading it high ends the recovery early.
pub open spec fn rec_loop(ri: I2cBusRecoveryInfo, i: int, scl: bool, t: Seq<RecoveryOp>) -> Option<Result<(), Error>>
    decreases RECOVERY_CLK_CNT * 2 - i,
{
    if i >= RECOVERY_CLK_CNT * 2 {
        rec_tail(ri, t, Ok(()))
    } else if scl && (t.len() == 0 || !(t[0] is GetScl)) {
        None
    } else if scl && t[0] == RecoveryOp::GetScl(false) {
        rec_tail(ri, t.subrange(1, t.len() as int), Err(Error::Busy))
    } else {
        let t1 = if scl { t.subrange(1, t.len() as int) } else { t };
        let seg = rec_edge(ri, !scl);
        if t1.len() < seg.len() || t1.subrange(0, seg.len() as int) != seg {
            None
        } else {
            let t2 = t1.subrange(seg.len() as int, t1.len() as int);
            if !scl && ri.has_get_sda {
                if t2.len() == 0 {
                    None
                } else if t2[0] == RecoveryOp::GetSda(true) {
                    rec_tail(ri, t2.subrange(1, t2.len() as int), Ok(()))
                } else if t2[0] == RecoveryOp::GetSda(false) {
                    rec_loop(ri, i + 1, !scl, t2.subrange(1, t2.len() as int))
                } else {
                    None
                }
            } else {
                rec_loop(ri, i + 1, !scl, t2)
            }
        }
    }
}

/// The operations before the loop: the prepare hook when there is one,
/// SCL high and a wait, SDA high when it can be driven.
pub open spec fn rec_start(ri: I2cBusRecoveryInfo) -> Seq<RecoveryOp> {
    (if ri.has_prepare_recovery { seq![RecoveryOp::Prepare] } else { seq![] })
        + seq![RecoveryOp::SetScl(true), RecoveryOp::Delay(RECOVERY_NDELAY)]
        + (if ri.has_set_sda { seq![RecoveryOp::SetSda(true)] } else { seq![] })
}

/// The outcome of a generic SCL recovery whose line operations were `t`
/// (`None` when `t` is not what the recovery does).
pub open spec fn rec_outcome(ri: I2cBusRecoveryInfo, t: Seq<RecoveryOp>) -> Option<Result<(), Error>> {
    let pre = rec_start(ri);
    if t.len() >= pre.len() && t.subrange(0, pre.len() as int) == pre {
        rec_loop(ri, 0, true, t.subrange(pre.len() as int, t.len() as int))
    } else {
        None
    }
}

/// A client as an adapter records it.
pub struct I2cClient {
    pub name: String,
    pub addr: u16,
    pub flags: u16,
    /// Id of the adapter it sits on.
    pub adapter: u32,
}

/// An adapter: id, name, bus speed, timeout, retries, recovery hooks and
/// its clients.
pub struct I2cAdapter {
    pub id: u32,
    pub name: String,
    pub bus_freq_hz: u32,
    pub timeout: u32,
    pub retries: u32,
    pub recovery_info: Option<I2cBusRecoveryInfo>,
    pub clients: Vec<I2cClient>,
}

/// Addresses of the clients in `c`.
pub open spec fn client_addrs(c: Seq<I2cClient>) -> Seq<u16> {
    c.map_values(|x: I2cClient| x.addr)
}

/// Source of adapter ids, counting up from 0.
pub struct I2cIds {
    pub next: u32,
}

impl I2cIds {
    /// Ids from 0.
    pub fn new() -> (i: I2cIds)
        ensures
            i.next == 0,
    {
        I2cIds { next: 0 }
    }
}

impl I2cAdapter {
    /// An adapter named `name` at `bus_freq_hz`, with the next id from
    /// `ids`, a timeout of 1000, 3 retries, no recovery and no clients.
    pub fn new(name: String, bus_freq_hz: u32, ids: &mut I2cIds) -> (a: I2cAdapter)
        ensures
            a.id == old(ids).next,
            final(ids).next == (if old(ids).next == u32::MAX { 0 } else { old(ids).next + 1 }),
            a.name@ == name@,
            a.bus_freq_hz == bus_freq_hz,
            a.timeout == 1000 && a.retries == 3,
            a.recovery_info is None,
            a.clients@.len() == 0,
    {
        let id = ids.next;
        ids.next = ids.next.wrapping_add(1);
        I2cAdapter { id, name, bus_freq_hz, timeout: 1000, retries: 3, recovery_info: None, clients: Vec::new() }
    }

    /// Runs `msgs` through the algorithm, trying again after a failure up to
    /// `retries` more times; the first success's count, or the last error,
    /// comes back. `InvalidArgument` for an empty transfer (the algorithm is
    /// then not asked).
    pub fn transfer<A: I2cAlgorithm>(&self, algo: &mut A, msgs: &mut Vec<I2cMsg>) -> (r: Result<usize, Error>)
        ensures
            old(msgs)@.len() == 0 ==> r == Err::<usize, Error>(Error::InvalidArgument) && final(msgs)@ == old(msgs)@
                && final(algo).xfers() == old(algo).xfers(),
            old(msgs)@.len() != 0 ==> final(algo).xfers().subrange(0, old(algo).xfers().len() as int) == old(algo).xfers()
                && retry_run(final(algo).xfers().subrange(old(algo).xfers().len() as int, final(algo).xfers().len() as int),
                    self.retries, r),
    {
        if msgs.len() == 0 {
            return Err(Error::InvalidArgument);
        }
        let mut attempts: u32 = 0;
        let ghost x0 = algo.xfers();
        loop
            invariant
                attempts <= self.retries,
                old(msgs)@.len() != 0,
                x0 == old(algo).xfers(),
                algo.xfers().len() == x0.len() + attempts,
                algo.xfers().subrange(0, x0.len() as int) == x0,
                forall|i: int| x0.len() <= i < algo.xfers().len() ==> (#[trigger] algo.xfers()[i]) is Err,
            decreases self.retries - attempts,
        {
            let ghost before = algo.xfers();
            let res = algo.master_xfer(self, msgs);
            proof {
                assert(algo.xfers().subrange(0, x0.len() as int) =~= before.subrange(0, x0.len() as int));
                let run = algo.xfers().subrange(x0.len() as int, algo.xfers().len() as int);
                assert(run.len() == attempts + 1);
                assert forall|i: int| 0 <= i < run.len() - 1 implies (#[trigger] run[i]) is Err by {
                    assert(run[i] == algo.xfers()[x0.len() + i]);
                    assert(algo.xfers()[x0.len() + i] == before[x0.len() + i]);
                }
                assert(run.last() == res);
            }
            match res {
                Ok(count) => return Ok(count),
                Err(e) => {
                    if attempts < self.retries {
                        attempts = attempts + 1;
                    } else {
                        return Err(e);
                    }
                },
            }
        }
    }

    /// Runs the adapter's own recovery routine; `NotSupported` without one.
    pub fn recover_bus<R: I2cRecoveryOps>(&self, ops: &mut R) -> (r: Result<(), Error>)
        ensures
            (self.recovery_info is None || !self.recovery_info.unwrap().has_recover_bus)
                ==> r == Err::<(), Error>(Error::NotSupported) && final(ops).line_ops() == old(ops).line_ops(),
            (self.recovery_info is Some && self.recovery_info.unwrap().has_recover_bus) ==> final(ops).line_ops()
                == old(ops).line_ops().push(RecoveryOp::RecoverBus(r)),
    {
        if let Some(recovery) = &self.recovery_info {
            if recovery.has_recover_bus {
                return ops.recover_bus(self);
            }
        }
        Err(Error::NotSupported)
    }

    /// Attaches a client; `AddressInUse` when a client already has its address.
    pub fn add_client(&mut self, client: I2cClient) -> (r: Result<(), Error>)
        ensures
            r is Err <==> client_addrs(old(self).clients@).contains(client.addr),
            r is Err ==> r == Err::<(), Error>(Error::AddressInUse) && final(self).clients@ == old(self).clients@,
            r is Ok ==> final(self).clients@ == old(self).clients@.push(client),
            final(self).id == old(self).id && final(self).name == old(self).name,
            final(self).bus_freq_hz == old(self).bus_freq_hz && final(self).retries == old(self).retries,
            final(self).timeout == old(self).timeout,
    {
        let mut i: usize = 0;
        while i < self.clients.len()
            invariant
                i <= self.clients@.len(),
                forall|j: int| 0 <= j < i ==> (#[trigger] self.clients@[j]).addr != client.addr,
            decreases self.clients.len() - i,
        {
            if self.clients[i].addr == client.addr {
                proof { assert(client_addrs(self.clients@)[i as int] == client.addr); }
                return Err(Error::AddressInUse);
            }
            i = i + 1;
        }
        proof {
            if client_addrs(self.clients@).contains(client.addr) {
                let k = choose|k: int| 0 <= k < client_addrs(self.clients@).len() && client_addrs(self.clients@)[k] == client.addr;
                assert(self.clients@[k].addr == client.addr);
            }
        }
        self.clients.push(client);
        Ok(())
    }

    /// Detaches every client at `addr` (order of the others kept).
    pub fn remove_client(&mut self, addr: u16) -> (r: Result<(), Error>)
        ensures
            r is Ok,
            final(self).clients@ == old(self).clients@.filter(|c: I2cClient| c.addr != addr),
            final(self).id == old(self).id && final(self).name == old(self).name,
            final(self).bus_freq_hz == old(self).bus_freq_hz && final(self).retries == old(self).retries,
            final(self).timeout == old(self).timeout,
    {
        let ghost orig = self.clients@;
        let ghost p = |c: I2cClient| c.addr != addr;
        let mut i: usize = 0;
        let ghost mut j: int = 0;
        while i < self.clients.len()
            invariant
                0 <= i <= j <= orig.len(),
                self.clients@.len() == i + (orig.len() - j),
                self.clients@.subrange(0, i as int) == orig.subrange(0, j).filter(p),
                self.clients@.subrange(i as int, self.clients@.len() as int) == orig.subrange(j, orig.len() as int),
                p == (|c: I2cClient| c.addr != addr),
                self.id == old(self).id && self.name == old(self).name,
                self.bus_freq_hz == old(self).bus_freq_hz && self.retries == old(self).retries,
                self.timeout == old(self).timeout,
            decreases self.clients.len() - i,
        {
            let ghost before = self.clients@;
            assert(before[i as int] == orig[j]) by {
                assert(before.subrange(i as int, before.len() as int)[0] == orig.subrange(j, orig.len() as int)[0]);
            }
            proof {
                reveal(Seq::filter);
                assert(orig.subrange(0, j + 1).drop_last() =~= orig.subrange(0, j));
                assert(orig.subrange(0, j + 1).last() == orig[j]);
            }
            if self.clients[i].addr == addr {
                self.clients.remove(i);
                proof {
                    assert(self.clients@.subrange(0, i as int) =~= before.subrange(0, i as int));
                    let tl = before.subrange(i as int, before.len() as int);
                    let ot = orig.subrange(j, orig.len() as int);
                    assert forall|k: int| 0 <= k < self.clients@.len() - i implies
                        #[trigger] self.clients@.subrange(i as int, self.clients@.len() as int)[k] == orig.subrange(j + 1, orig.len() as int)[k] by {
                        assert(tl[k + 1] == ot[k + 1]);
                    }
                    assert(self.clients@.subrange(i as int, self.clients@.len() as int) =~= orig.subrange(j + 1, orig.len() as int));
                    j = j + 1;
                }
            } else {
                proof {
                    assert(before.subrange(0, i as int + 1) =~= before.subrange(0, i as int).push(orig[j]));
                    let tl = before.subrange(i as int, before.len() as int);
                    let ot = orig.subrange(j, orig.len() as int);
                    assert forall|k: int| 0 <= k < before.len() - i - 1 implies
                        #[trigger] before.subrange(i as int + 1, before.len() as int)[k] == orig.subrange(j + 1, orig.len() as int)[k] by {
                        assert(tl[k + 1] == ot[k + 1]);
                    }
                    assert(before.subrange(i as int + 1, before.len() as int) =~= orig.subrange(j + 1, orig.len() as int));
                }
                i = i + 1;
                proof { j = j + 1; }
            }
        }
        proof {
            assert(j == orig.len());
            assert(orig.subrange(0, j) =~= orig);
            assert(self.clients@ =~= self.clients@.subrange(0, i as int));
        }
        Ok(())
    }

    /// The algorithm's functionality flags.
    pub fn functionality<A: I2cAlgorithm>(&self, algo: &A) -> u32 {
        algo.functionality()
    }
}


/// A copy of client `c`.
fn copy_client(c: &I2cClient) -> (r: I2cClient)
    ensures
        r.name@ == c.name@ && r.addr == c.addr && r.flags == c.flags && r.adapter == c.adapter,
{
    I2cClient { name: c.name.clone(), addr: c.addr, flags: c.flags, adapter: c.adapter }
}

/// Whether `addr` is a valid address for a client with `flags`: at most
/// 0x3ff with a 10-bit address, at most 0x77 otherwise.
pub open spec fn client_addr_ok(addr: u16, flags: u16) -> bool {
    if flags & I2C_CLIENT_TEN != 0 { addr <= I2C_ADDR_10BITS_MAX } else { addr <= I2C_ADDR_7BITS_MAX }
}

impl I2cClient {
    /// A client `name` at `addr` on `adapter`, which records it.
    /// `InvalidArgument` for an address out of range for its width,
    /// `AddressInUse` when the adapter already has a client there.
    pub fn new(name: String, addr: u16, flags: u16, adapter: &mut I2cAdapter) -> (r: Result<I2cClient, Error>)
        ensures
            !client_addr_ok(addr, flags) ==> r == Err::<I2cClient, Error>(Error::InvalidArgument),
            client_addr_ok(addr, flags) && client_addrs(old(adapter).clients@).contains(addr)
                ==> r == Err::<I2cClient, Error>(Error::AddressInUse),
            r is Err ==> final(adapter).clients@ == old(adapter).clients@,
            r is Ok <==> client_addr_ok(addr, flags) && !client_addrs(old(adapter).clients@).contains(addr),
            r matches Ok(c) ==> c.name@ == name@ && c.addr == addr && c.flags == flags && c.adapter == old(adapter).id
                && final(adapter).clients@.len() == old(adapter).clients@.len() + 1
                && final(adapter).clients@.drop_last() == old(adapter).clients@
                && final(adapter).clients@.last().addr == addr,
            final(adapter).id == old(adapter).id && final(adapter).name == old(adapter).name,
            final(adapter).retries == old(adapter).retries,
    {
        if flags & I2C_CLIENT_TEN != 0 {
            if addr > I2C_ADDR_10BITS_MAX {
                return Err(Error::InvalidArgument);
            }
        } else if addr > I2C_ADDR_7BITS_MAX {
            return Err(Error::InvalidArgument);
        }
        let client = I2cClient { name, addr, flags, adapter: adapter.id };
        let record = copy_client(&client);
        adapter.add_client(record)?;
        proof { assert(adapter.clients@.drop_last() =~= old(adapter).clients@); }
        Ok(client)
    }

    /// Writes `buf` to the client in one message; the byte count on success,
    /// `IoError` when the transfer reports anything but one message.
    pub fn master_send<A: I2cAlgorithm>(&self, adapter: &I2cAdapter, algo: &mut A, buf: &[u8]) -> (r: Result<usize, Error>)
        ensures
            r matches Ok(n) ==> n == buf@.len(),
    {
        let mut data: Vec<u8> = Vec::new();
        let mut i: usize = 0;
        while i < buf.len()
            invariant
                i <= buf@.len(),
                data@ == buf@.subrange(0, i as int),
            decreases buf.len() - i,
        {
            data.push(buf[i]);
            i = i + 1;
            assert(data@ =~= buf@.subrange(0, i as int));
        }
        let mut msgs: Vec<I2cMsg> = Vec::new();
        msgs.push(I2cMsg::write(self.addr, data));
        let count = adapter.transfer(algo, &mut msgs)?;
        if count == 1 {
            Ok(buf.len())
        } else {
            Err(Error::IoError)
        }
    }

    /// Reads `buf.len()` bytes from the client into `buf`; the byte count on
    /// success, `IoError` when the transfer reports anything but one message
    /// or hands back a different number of bytes (then `buf` is unchanged).
    pub fn master_recv<A: I2cAlgorithm>(&self, adapter: &I2cAdapter, algo: &mut A, buf: &mut Vec<u8>) -> (r: Result<usize, Error>)
        ensures
            r matches Ok(n) ==> n == old(buf)@.len() && final(buf)@.len() == old(buf)@.len(),
            r is Err ==> final(buf)@ == old(buf)@,
    {
        let mut msgs: Vec<I2cMsg> = Vec::new();
        msgs.push(I2cMsg::read(self.addr, buf.len()));
        let count = adapter.transfer(algo, &mut msgs)?;
        if count == 1 && msgs.len() >= 1 && msgs[0].buf.len() == buf.len() {
            let mut i: usize = 0;
            while i < buf.len()
                invariant
                    msgs@.len() >= 1,
                    msgs@[0].buf@.len() == buf@.len(),
                    buf@.len() == old(buf)@.len(),
                    i <= buf@.len(),
                decreases buf.len() - i,
            {
                let b = msgs[0].buf[i];
                buf.set(i, b);
                i = i + 1;
            }
            Ok(buf.len())
        } else {
            Err(Error::IoError)
        }
    }

    /// Runs `msgs` on the client's adapter (see `I2cAdapter::transfer`).
    pub fn transfer<A: I2cAlgorithm>(&self, adapter: &I2cAdapter, algo: &mut A, msgs: &mut Vec<I2cMsg>) -> (r: Result<usize, Error>)
        ensures
            old(msgs)@.len() == 0 ==> r == Err::<usize, Error>(Error::InvalidArgument) && final(algo).xfers()
                == old(algo).xfers(),
            old(msgs)@.len() != 0 ==> final(algo).xfers().subrange(0, old(algo).xfers().len() as int) == old(algo).xfers()
                && retry_run(final(algo).xfers().subrange(old(algo).xfers().len() as int, final(algo).xfers().len() as int),
                    adapter.retries, r),
    {
        adapter.transfer(algo, msgs)
    }
}

/// Whether the adapter has what generic recovery needs: recovery info with
/// SCL read and write hooks.
pub open spec fn can_recover(adapter: &I2cAdapter) -> bool {
    adapter.recovery_info matches Some(ri) && ri.has_get_scl && ri.has_set_scl
}

/// The operations of one loop step that goes on to the next half period.
pub open spec fn rec_step_ops(ri: I2cBusRecoveryInfo, scl: bool) -> Seq<RecoveryOp> {
    (if scl { seq![RecoveryOp::GetScl(true)] } else { seq![] }) + rec_edge(ri, !scl)
        + (if !scl && ri.has_get_sda { seq![RecoveryOp::GetSda(false)] } else { seq![] })
}

proof fn lemma_rec_continue(ri: I2cBusRecoveryInfo, i: int, scl: bool, rest: Seq<RecoveryOp>)
    requires
        0 <= i < RECOVERY_CLK_CNT * 2,
    ensures
        rec_loop(ri, i, scl, rec_step_ops(ri, scl) + rest) == rec_loop(ri, i + 1, !scl, rest),
{
    let head = if scl { seq![RecoveryOp::GetScl(true)] } else { seq![] };
    let edge = rec_edge(ri, !scl);
    let tailread = if !scl && ri.has_get_sda { seq![RecoveryOp::GetSda(false)] } else { seq![] };
    let t = rec_step_ops(ri, scl) + rest;
    assert(t =~= head + edge + tailread + rest);
    let t1 = if scl { t.subrange(1, t.len() as int) } else { t };
    assert(t1 =~= edge + tailread + rest);
    assert(t1.subrange(0, edge.len() as int) =~= edge);
    let t2 = t1.subrange(edge.len() as int, t1.len() as int);
    assert(t2 =~= tailread + rest);
    if !scl && ri.has_get_sda {
        assert(t2.subrange(1, t2.len() as int) =~= rest);
    }
}

proof fn lemma_rec_stop(ri: I2cBusRecoveryInfo, i: int)
    requires
        0 <= i < RECOVERY_CLK_CNT * 2,
        ri.has_get_sda,
    ensures
        rec_loop(ri, i, false, rec_edge(ri, true) + seq![RecoveryOp::GetSda(true)]
            + (if ri.has_unprepare_recovery { seq![RecoveryOp::Unprepare] } else { seq![] })) == Some(Ok::<(), Error>(())),
{
    let edge = rec_edge(ri, true);
    let tl = if ri.has_unprepare_recovery { seq![RecoveryOp::Unprepare] } else { seq![] };
    let t = edge + seq![RecoveryOp::GetSda(true)] + tl;
    assert(t.subrange(0, edge.len() as int) =~= edge);
    let t2 = t.subrange(edge.len() as int, t.len() as int);
    assert(t2 =~= seq![RecoveryOp::GetSda(true)] + tl);
    assert(t2.subrange(1, t2.len() as int) =~= tl);
}

proof fn lemma_rec_busy(ri: I2cBusRecoveryInfo, i: int)
    requires
        0 <= i < RECOVERY_CLK_CNT * 2,
    ensures
        rec_loop(ri, i, true, seq![RecoveryOp::GetScl(false)]
            + (if ri.has_unprepare_recovery { seq![RecoveryOp::Unprepare] } else { seq![] })) == Some(Err::<(), Error>(Error::Busy)),
{
    let tl = if ri.has_unprepare_recovery { seq![RecoveryOp::Unprepare] } else { seq![] };
    let t = seq![RecoveryOp::GetScl(false)] + tl;
    assert(t.subrange(1, t.len() as int) =~= tl);
}

/// Frees a stuck bus by clocking SCL up to nine times, stopping early once
/// SDA reads high after a rising edge. `NotSupported` without SCL hooks;
/// `Busy` when SCL stays low where it should be high.
#[verifier::rlimit(60)]
pub fn i2c_generic_scl_recovery<R: I2cRecoveryOps>(adapter: &I2cAdapter, ops: &mut R) -> (r: Result<(), Error>)
    ensures
        !can_recover(adapter) ==> r == Err::<(), Error>(Error::NotSupported) && final(ops).line_ops() == old(ops).line_ops(),
        can_recover(adapter) ==> r is Ok || r == Err::<(), Error>(Error::Busy),
        can_recover(adapter) ==> final(ops).line_ops().subrange(0, old(ops).line_ops().len() as int) == old(ops).line_ops()
            && rec_outcome(
                adapter.recovery_info.unwrap(),
                final(ops).line_ops().subrange(old(ops).line_ops().len() as int, final(ops).line_ops().len() as int),
            ) == Some(r),
{
    let recovery = match &adapter.recovery_info {
        None => return Err(Error::NotSupported),
        Some(ri) => ri,
    };
    if !recovery.has_get_scl || !recovery.has_set_scl {
        return Err(Error::NotSupported);
    }
    let ghost ri = *recovery;
    let ghost l0 = ops.line_ops();
    if recovery.has_prepare_recovery {
        ops.prepare_recovery(adapter);
    }
    let mut scl = true;
    ops.set_scl(adapter, scl);
    ops.ndelay(RECOVERY_NDELAY);
    if recovery.has_set_sda {
        ops.set_sda(adapter, scl);
    }
    proof {
        let pre = rec_start(ri);
        let sn = ops.line_ops().subrange(l0.len() as int, ops.line_ops().len() as int);
        assert(ops.line_ops().subrange(0, l0.len() as int) =~= l0);
        assert(sn =~= pre);
        assert forall|rest: Seq<RecoveryOp>| #[trigger] rec_outcome(ri, sn + rest) == rec_loop(ri, 0, true, rest) by {
            assert((sn + rest).subrange(0, pre.len() as int) =~= pre);
            assert((sn + rest).subrange(pre.len() as int, (sn + rest).len() as int) =~= rest);
        }
    }
    let mut i: u32 = 0;
    while i < RECOVERY_CLK_CNT * 2
        invariant
            i <= RECOVERY_CLK_CNT * 2,
            can_recover(adapter),
            adapter.recovery_info == Some(ri),
            *recovery == ri,
            ops.line_ops().len() >= l0.len(),
            ops.line_ops().subrange(0, l0.len() as int) == l0,
            l0 == old(ops).line_ops(),
            forall|rest: Seq<RecoveryOp>| #[trigger] rec_outcome(ri, ops.line_ops().subrange(l0.len() as int,
                ops.line_ops().len() as int) + rest) == rec_loop(ri, i as int, scl, rest),
        decreases RECOVERY_CLK_CNT * 2 - i,
    {
        let ghost la = ops.line_ops();
        let ghost sa = la.subrange(l0.len() as int, la.len() as int);
        let ghost scl0 = scl;
        if scl {
            let v = ops.get_scl(adapter);
            if !v {
                if recovery.has_unprepare_recovery {
                    ops.unprepare_recovery(adapter);
                }
                proof {
                    let lf = ops.line_ops();
                    let tl = if ri.has_unprepare_recovery { seq![RecoveryOp::Unprepare] } else { seq![] };
                    let t = seq![RecoveryOp::GetScl(false)] + tl;
                    assert(lf =~= la + t);
                    assert(lf.subrange(0, l0.len() as int) =~= l0);
                    assert(lf.subrange(l0.len() as int, lf.len() as int) =~= sa + t);
                    lemma_rec_busy(ri, i as int);
                }
                return Err(Error::Busy);
            }
        }
        scl = !scl;
        ops.set_scl(adapter, scl);
        if scl {
            ops.ndelay(RECOVERY_NDELAY);
        } else {
            ops.ndelay(RECOVERY_NDELAY / 2);
        }
        if recovery.has_set_sda {
            ops.set_sda(adapter, scl);
        }
        ops.ndelay(RECOVERY_NDELAY / 2);
        let ghost lc = ops.line_ops();
        let mut stop = false;
        if scl && recovery.has_get_sda {
            if ops.get_sda(adapter) {
                stop = true;
            }
        }
        if stop {
            if recovery.has_unprepare_recovery {
                ops.unprepare_recovery(adapter);
            }
            proof {
                let lf = ops.line_ops();
                let tl = if ri.has_unprepare_recovery { seq![RecoveryOp::Unprepare] } else { seq![] };
                let t = rec_edge(ri, true) + seq![RecoveryOp::GetSda(true)] + tl;
                assert(!scl0);
                assert(lf =~= la + t);
                assert(lf.subrange(0, l0.len() as int) =~= l0);
                assert(lf.subrange(l0.len() as int, lf.len() as int) =~= sa + t);
                lemma_rec_stop(ri, i as int);
            }
            return Ok(());
        }
        proof {
            let ld = ops.line_ops();
            let seg = rec_step_ops(ri, scl0);
            assert(ld =~= la + seg);
            assert(ld.subrange(0, l0.len() as int) =~= l0);
            assert(ld.subrange(l0.len() as int, ld.len() as int) =~= sa + seg);
            assert forall|rest: Seq<RecoveryOp>| #[trigger] rec_outcome(ri, ld.subrange(l0.len() as int, ld.len() as int)
                + rest) == rec_loop(ri, i + 1, scl, rest) by {
                assert((sa + seg) + rest =~= sa + (seg + rest));
                lemma_rec_continue(ri, i as int, scl0, rest);
            }
        }
        i = i + 1;
    }
    let ghost le = ops.line_ops();
    if recovery.has_unprepare_recovery {
        ops.unprepare_recovery(adapter);
    }
    proof {
        let lf = ops.line_ops();
        let tl = if ri.has_unprepare_recovery { seq![RecoveryOp::Unprepare] } else { seq![] };
        assert(lf =~= le + tl);
        assert(lf.subrange(0, l0.len() as int) =~= l0);
        let se = le.subrange(l0.len() as int, le.len() as int);
        assert(lf.subrange(l0.len() as int, lf.len() as int) =~= se + tl);
        assert(rec_outcome(ri, se + tl) == rec_loop(ri, i as int, scl, tl));
    }
    Ok(())
}

/// The registered adapters, in registration order.
pub struct I2cRegistry {
    pub adapters: Vec<I2cAdapter>,
}

impl I2cRegistry {
    /// No adapters.
    pub fn new() -> (r: I2cRegistry)
        ensures
            r.adapters@.len() == 0,
    {
        I2cRegistry { adapters: Vec::new() }
    }
}

/// Something shown each adapter in turn.
pub trait AdapterVisitor {
    fn visit(&mut self, adapter: &I2cAdapter);
}

/// Registers an adapter (appended; always succeeds).
pub fn i2c_add_adapter(reg: &mut I2cRegistry, adapter: I2cAdapter) -> (r: Result<(), Error>)
    ensures
        r is Ok,
        final(reg).adapters@ == old(reg).adapters@.push(adapter),
{
    reg.adapters.push(adapter);
    Ok(())
}

/// Position of the first adapter with id `id`.
pub open spec fn adapter_pos(a: Seq<I2cAdapter>, id: u32) -> Option<int> {
    if exists|k: int| 0 <= k < a.len() && (#[trigger] a[k]).id == id {
        Some(choose|k: int| 0 <= k < a.len() && (#[trigger] a[k]).id == id
            && forall|j: int| 0 <= j < k ==> (#[trigger] a[j]).id != id)
    } else {
        None
    }
}

fn find_adapter(reg: &I2cRegistry, id: u32) -> (r: Option<usize>)
    ensures
        r matches Some(k) ==> adapter_pos(reg.adapters@, id) == Some(k as int) && k < reg.adapters@.len(),
        r is None ==> adapter_pos(reg.adapters@, id) is None,
{
    let mut i: usize = 0;
    while i < reg.adapters.len()
        invariant
            i <= reg.adapters@.len(),
            forall|j: int| 0 <= j < i ==> (#[trigger] reg.adapters@[j]).id != id,
        decreases reg.adapters.len() - i,
    {
        if reg.adapters[i].id == id {
            proof {
                let a = reg.adapters@;
                assert(0 <= i < a.len() && (a[i as int]).id == id && forall|j: int| 0 <= j < i ==> (#[trigger] a[j]).id != id);
                let k = choose|k: int| 0 <= k < a.len() && (#[trigger] a[k]).id == id
                    && forall|j: int| 0 <= j < k ==> (#[trigger] a[j]).id != id;
                assert(a[i as int].id == id);
                if k < i { assert(a[k].id != id); }
                if k > i { assert(a[i as int].id != id); }
            }
            return Some(i);
        }
        i = i + 1;
    }
    None
}

/// Unregisters the first adapter with id `id`; `NotFound` when none has it.
pub fn i2c_del_adapter(reg: &mut I2cRegistry, adapter_id: u32) -> (r: Result<(), Error>)
    ensures
        adapter_pos(old(reg).adapters@, adapter_id) is None ==> r == Err::<(), Error>(Error::NotFound)
            && final(reg).adapters@ == old(reg).adapters@,
        adapter_pos(old(reg).adapters@, adapter_id) matches Some(k) ==> r is Ok
            && final(reg).adapters@ == old(reg).adapters@.remove(k),
{
    let pos = match find_adapter(reg, adapter_id) {
        None => return Err(Error::NotFound),
        Some(p) => p,
    };
    let _ = reg.adapters.remove(pos);
    Ok(())
}

/// The first adapter with id `id`.
pub fn i2c_get_adapter(reg: &I2cRegistry, adapter_id: u32) -> (r: Option<&I2cAdapter>)
    ensures
        adapter_pos(reg.adapters@, adapter_id) is None ==> r is None,
        adapter_pos(reg.adapters@, adapter_id) matches Some(k) ==> r == Some(&reg.adapters@[k]),
{
    match find_adapter(reg, adapter_id) {
        None => None,
        Some(p) => Some(&reg.adapters[p]),
    }
}

/// Shows each adapter, in registration order, to `v`.
pub fn i2c_for_each_adapter<V: AdapterVisitor>(reg: &I2cRegistry, v: &mut V) {
    let mut i: usize = 0;
    while i < reg.adapters.len()
        invariant
            i <= reg.adapters@.len(),
        decreases reg.adapters.len() - i,
    {
        v.visit(&reg.adapters[i]);
        i = i + 1;
    }
}

} // verus!
