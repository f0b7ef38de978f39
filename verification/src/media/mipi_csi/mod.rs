//! MIPI CSI-2 camera receiver: sensor configuration, the PHY / CSID / VFE
//! programming of the camera subsystem, the receiver table with start and
//! stop, and frame-done interrupts.
use vstd::prelude::*;
use crate::clk::mmio::{IoEvent, RegisterIo};
use crate::error::KernelError;
use crate::media::v4l2::V4l2PixFmt;

pub mod csi_dt;

verus! {

pub const MAX_CSI_DEVS: usize = 2;
pub const MAX_CSI_LANES: usize = 4;
pub const CSI_MAX_VC: usize = 4;

pub const CSIPHY_BASE: u64 = 0x0AC6_5000;
pub const CSID_BASE: u64 = 0x0AC6_6000;
pub const VFE_BASE: u64 = 0x0ACE_0000;
pub const CSI_STRIDE: u64 = 0x0002_0000;

pub const REG_CSID_CTRL0: u64 = 0x000;
pub const REG_CSID_CTRL1: u64 = 0x004;
pub const REG_CSID_IRQ_CLR: u64 = 0x020;
pub const REG_CSID_IRQ_MASK: u64 = 0x024;

pub const REG_VFE_CFG: u64 = 0x000;
pub const REG_VFE_IRQ_CMD: u64 = 0x058;
pub const REG_VFE_IRQ_MASK: u64 = 0x05C;
pub const REG_VFE_BUS_IMG0: u64 = 0x200;

/// How a sensor sends frames.
#[derive(Clone, Copy)]
pub struct CsiSensorCfg {
    pub width: u32,
    pub height: u32,
    pub fmt: V4l2PixFmt,
    pub data_type: u8,
    pub lanes: u8,
    pub settle_cnt: u16,
    pub settle_clk: u8,
}

impl CsiSensorCfg {
    /// A `w` x `h` RAW10 sensor on four lanes (settle count 0x1B, clock 0xFF).
    pub fn new_raw10_4lane(w: u32, h: u32) -> (c: CsiSensorCfg)
        ensures
            c.width == w && c.height == h && c.fmt == V4l2PixFmt::Raw10 && c.data_type == csi_dt::RAW10,
            c.lanes == 4 && c.settle_cnt == 0x1B && c.settle_clk == 0xFF,
    {
        CsiSensorCfg {
            width: w,
            height: h,
            fmt: V4l2PixFmt::Raw10,
            data_type: csi_dt::RAW10,
            lanes: 4,
            settle_cnt: 0x1B,
            settle_clk: 0xFF,
        }
    }
}

/// Receiver hardware operations.
pub trait CsiOps {
    /// The calls made, in order, with their results. Every implementation
    /// in this library keeps it; the empty default stands only for
    /// implementations made outside it, which verification does not see.
    closed spec fn csi_calls(&self) -> Seq<CsiCall> {
        Seq::empty()
    }

    fn phy_power_on(&mut self, hw_idx: u8) -> (r: Result<(), KernelError>)
        ensures
            final(self).csi_calls() == old(self).csi_calls().push(CsiCall::PhyOn(hw_idx, r));

    fn phy_power_off(&mut self, hw_idx: u8)
        ensures
            final(self).csi_calls() == old(self).csi_calls().push(CsiCall::PhyOff(hw_idx));

    fn csid_enable(&mut self, hw_idx: u8, cfg: &CsiSensorCfg) -> (r: Result<(), KernelError>)
        ensures
            final(self).csi_calls() == old(self).csi_calls().push(CsiCall::CsidEnable(hw_idx, r));

    fn vfe_enable(&mut self, hw_idx: u8, cfg: &CsiSensorCfg, buf_phys: u64) -> (r: Result<(), KernelError>)
        ensures
            final(self).csi_calls() == old(self).csi_calls().push(CsiCall::VfeEnable(hw_idx, buf_phys, r));

    fn vfe_disable(&mut self, hw_idx: u8)
        ensures
            final(self).csi_calls() == old(self).csi_calls().push(CsiCall::VfeDisable(hw_idx));
}

/// One call of a receiver's operations: the instance, and the buffer
/// address and result where there are any.
pub enum CsiCall {
    PhyOn(u8, Result<(), KernelError>),
    PhyOff(u8),
    CsidEnable(u8, Result<(), KernelError>),
    VfeEnable(u8, u64, Result<(), KernelError>),
    VfeDisable(u8),
}

/// Whether `calls` are those of starting instance `hw` into the buffer at
/// `buf`, ending in `r`: PHY power-up, then (when it worked) CSID enable,
/// then (when that worked) VFE enable; the first error is `r`, else `r` is
/// the last result.
pub open spec fn start_calls(hw: u8, buf: u64, calls: Seq<CsiCall>, r: Result<(), KernelError>) -> bool {
    &&& calls.len() >= 1
    &&& match calls[0] {
        CsiCall::PhyOn(h, r1) => h == hw && if r1 is Err {
            calls.len() == 1 && r == r1
        } else {
            &&& calls.len() >= 2
            &&& match calls[1] {
                CsiCall::CsidEnable(h2, r2) => h2 == hw && if r2 is Err {
                    calls.len() == 2 && r == r2
                } else {
                    &&& calls.len() == 3
                    &&& match calls[2] {
                        CsiCall::VfeEnable(h3, b3, r3) => h3 == hw && b3 == buf && r == r3,
                        _ => false,
                    }
                },
                _ => false,
            }
        },
        _ => false,
    }
}

/// Receiver states.
#[derive(Debug, Clone, Copy, PartialEq, Eq, Structural)]
pub enum CsiState {
    Off,
    PhyOn,
    Streaming,
    Error,
}

/// A receiver with its sensor and frame counter.
pub struct CsiDev {
    pub hw_idx: u8,
    pub state: CsiState,
    pub cfg: CsiSensorCfg,
    pub frame_seq: u32,
}

impl CsiDev {
    /// An idle receiver for hardware `hw_idx` and sensor `cfg`.
    pub fn new(hw_idx: u8, cfg: CsiSensorCfg) -> (d: CsiDev)
        ensures
            d.hw_idx == hw_idx && d.state == CsiState::Off && d.cfg == cfg && d.frame_seq == 0,
    {
        CsiDev { hw_idx, state: CsiState::Off, cfg, frame_seq: 0 }
    }
}

/// Two receiver slots, the first `count` in use.
pub struct CsiDevTable {
    pub devs: Vec<Option<CsiDev>>,
    pub count: usize,
}

/// Two slots with the count within them.
pub open spec fn csi_table_wf(t: &CsiDevTable) -> bool {
    t.devs@.len() == MAX_CSI_DEVS && t.count <= MAX_CSI_DEVS
}

impl CsiDevTable {
    /// Two empty slots.
    pub fn new() -> (t: CsiDevTable)
        ensures
            csi_table_wf(&t),
            t.count == 0,
            t.devs@[0] is None && t.devs@[1] is None,
    {
        let mut devs: Vec<Option<CsiDev>> = Vec::new();
        devs.push(None);
        devs.push(None);
        CsiDevTable { devs, count: 0 }
    }
}

/// Register block of instance `hw_idx` above `base`.
pub open spec fn block_base(base: u64, hw_idx: u8) -> u64 {
    (base + hw_idx * CSI_STRIDE) as u64
}

fn csi_phy_base(hw_idx: u8) -> (b: u64)
    ensures
        b == block_base(CSIPHY_BASE, hw_idx),
{
    CSIPHY_BASE + (hw_idx as u64) * CSI_STRIDE
}

fn csi_csid_base(hw_idx: u8) -> (b: u64)
    ensures
        b == block_base(CSID_BASE, hw_idx),
{
    CSID_BASE + (hw_idx as u64) * CSI_STRIDE
}

fn csi_vfe_base(hw_idx: u8) -> (b: u64)
    ensures
        b == block_base(VFE_BASE, hw_idx),
{
    VFE_BASE + (hw_idx as u64) * CSI_STRIDE
}

/// The CSID writes for sensor `cfg` at block `base`: clear the
/// interrupts, enable with the lane count, the data type, unmask.
pub open spec fn csid_writes(base: u64, cfg: &CsiSensorCfg) -> Seq<IoEvent> {
    seq![
        IoEvent::Write((base + REG_CSID_IRQ_CLR) as u64, 0xFFFF_FFFF),
        IoEvent::Write((base + REG_CSID_CTRL0) as u64, 0x01u32 | (((cfg.lanes - 1) as u32) << 4u32)),
        IoEvent::Write((base + REG_CSID_CTRL1) as u64, cfg.data_type as u32),
        IoEvent::Write((base + REG_CSID_IRQ_MASK) as u64, 0x07),
    ]
}

/// The VFE writes for sensor `cfg` into the buffer at `buf_phys` at block
/// `base`: the frame size, the buffer address (its low 32 bits), unmask
/// and arm the frame-done interrupt.
pub open spec fn vfe_writes(base: u64, cfg: &CsiSensorCfg, buf_phys: u64) -> Seq<IoEvent> {
    seq![
        IoEvent::Write((base + REG_VFE_CFG) as u64, (cfg.width << 16u32) | cfg.height),
        IoEvent::Write((base + REG_VFE_BUS_IMG0) as u64, buf_phys as u32),
        IoEvent::Write((base + REG_VFE_IRQ_MASK) as u64, 0x01),
        IoEvent::Write((base + REG_VFE_IRQ_CMD) as u64, 0x01),
    ]
}

/// The camera subsystem's receiver, programmed through its registers.
pub struct CamssOps<R: RegisterIo> {
    pub io: R,
    /// The calls made of it, in order.
    pub calls: Ghost<Seq<CsiCall>>,
}

impl<R: RegisterIo> CamssOps<R> {
    /// The receiver over registers `io`, no call made yet.
    pub fn new(io: R) -> (o: CamssOps<R>)
        ensures
            o.io == io,
            o.csi_calls() == Seq::<CsiCall>::empty(),
    {
        CamssOps { io, calls: Ghost(Seq::empty()) }
    }
}

impl<R: RegisterIo> CsiOps for CamssOps<R> {
    closed spec fn csi_calls(&self) -> Seq<CsiCall> {
        self.calls@
    }

    fn phy_power_on(&mut self, hw_idx: u8) -> (r: Result<(), KernelError>)
        ensures
            r is Ok,
            final(self).io.trace() == old(self).io.trace() + seq![
                IoEvent::Write(block_base(CSIPHY_BASE, hw_idx), 0x01),
                IoEvent::Write((block_base(CSIPHY_BASE, hw_idx) + 0x004) as u64, 0x00),
            ],
    {
        let base = csi_phy_base(hw_idx);
        self.io.write_reg(base, 0x01);
        self.io.write_reg(base + 0x004, 0x00);
        assert(self.io.trace() =~= old(self).io.trace() + seq![
            IoEvent::Write(base, 0x01),
            IoEvent::Write((base + 0x004) as u64, 0x00),
        ]);
        self.calls = Ghost(old(self).calls@.push(CsiCall::PhyOn(hw_idx, Ok(()))));
        Ok(())
    }

    fn phy_power_off(&mut self, hw_idx: u8)
        ensures
            final(self).io.trace() == old(self).io.trace().push(IoEvent::Write(block_base(CSIPHY_BASE, hw_idx), 0x00)),
    {
        let base = csi_phy_base(hw_idx);
        self.io.write_reg(base, 0x00);
        self.calls = Ghost(old(self).calls@.push(CsiCall::PhyOff(hw_idx)));
    }

    fn csid_enable(&mut self, hw_idx: u8, cfg: &CsiSensorCfg) -> (r: Result<(), KernelError>)
        ensures
            r is Err <==> cfg.lanes == 0,
            r is Err ==> (r matches Err(KernelError::InvalidParameter(_))),
            r is Err ==> final(self).io.trace() == old(self).io.trace(),
            r is Ok ==> final(self).io.trace() == old(self).io.trace() + csid_writes(block_base(CSID_BASE, hw_idx), cfg),
    {
        if cfg.lanes == 0 {
            let r: Result<(), KernelError> = Err(KernelError::InvalidParameter("lanes"));
            self.calls = Ghost(old(self).calls@.push(CsiCall::CsidEnable(hw_idx, r)));
            return r;
        }
        let base = csi_csid_base(hw_idx);
        self.io.write_reg(base + REG_CSID_IRQ_CLR, 0xFFFF_FFFF);
        let ctrl0: u32 = 0x01u32 | (((cfg.lanes - 1) as u32) << 4u32);
        self.io.write_reg(base + REG_CSID_CTRL0, ctrl0);
        self.io.write_reg(base + REG_CSID_CTRL1, cfg.data_type as u32);
        self.io.write_reg(base + REG_CSID_IRQ_MASK, 0x07);
        assert(self.io.trace() =~= old(self).io.trace() + csid_writes(base, cfg));
        self.calls = Ghost(old(self).calls@.push(CsiCall::CsidEnable(hw_idx, Ok(()))));
        Ok(())
    }

    fn vfe_enable(&mut self, hw_idx: u8, cfg: &CsiSensorCfg, buf_phys: u64) -> (r: Result<(), KernelError>)
        ensures
            r is Ok,
            final(self).io.trace() == old(self).io.trace() + vfe_writes(block_base(VFE_BASE, hw_idx), cfg, buf_phys),
    {
        let base = csi_vfe_base(hw_idx);
        let vfe_cfg: u32 = (cfg.width << 16u32) | cfg.height;
        self.io.write_reg(base + REG_VFE_CFG, vfe_cfg);
        self.io.write_reg(base + REG_VFE_BUS_IMG0, buf_phys as u32);
        self.io.write_reg(base + REG_VFE_IRQ_MASK, 0x01);
        self.io.write_reg(base + REG_VFE_IRQ_CMD, 0x01);
        assert(self.io.trace() =~= old(self).io.trace() + vfe_writes(base, cfg, buf_phys));
        self.calls = Ghost(old(self).calls@.push(CsiCall::VfeEnable(hw_idx, buf_phys, Ok(()))));
        Ok(())
    }

    fn vfe_disable(&mut self, hw_idx: u8)
        ensures
            final(self).io.trace() == old(self).io.trace() + seq![
                IoEvent::Write((block_base(VFE_BASE, hw_idx) + REG_VFE_CFG) as u64, 0x00),
                IoEvent::Write((block_base(VFE_BASE, hw_idx) + REG_VFE_IRQ_MASK) as u64, 0x00),
            ],
    {
        let base = csi_vfe_base(hw_idx);
        self.io.write_reg(base + REG_VFE_CFG, 0x00);
        self.io.write_reg(base + REG_VFE_IRQ_MASK, 0x00);
        assert(self.io.trace() =~= old(self).io.trace() + seq![
            IoEvent::Write((base + REG_VFE_CFG) as u64, 0x00),
            IoEvent::Write((base + REG_VFE_IRQ_MASK) as u64, 0x00),
        ]);
        self.calls = Ghost(old(self).calls@.push(CsiCall::VfeDisable(hw_idx)));
    }
}

/// Registers a receiver for sensor `cfg` in the next slot (its hardware
/// index is the slot) and returns the slot; `ResourceExhausted` when both
/// are taken.
pub fn csi_probe(tbl: &mut CsiDevTable, cfg: CsiSensorCfg) -> (r: Result<u8, KernelError>)
    requires
        csi_table_wf(old(tbl)),
    ensures
        csi_table_wf(final(tbl)),
        old(tbl).count >= MAX_CSI_DEVS ==> r == Err::<u8, KernelError>(KernelError::ResourceExhausted)
            && final(tbl).devs@ == old(tbl).devs@ && final(tbl).count == old(tbl).count,
        old(tbl).count < MAX_CSI_DEVS ==> r == Ok::<u8, KernelError>(old(tbl).count as u8)
            && final(tbl).devs@ == old(tbl).devs@.update(old(tbl).count as int,
                Some(CsiDev { hw_idx: old(tbl).count as u8, state: CsiState::Off, cfg: cfg, frame_seq: 0 }))
            && final(tbl).count == old(tbl).count + 1,
{
    if tbl.count >= MAX_CSI_DEVS {
        return Err(KernelError::ResourceExhausted);
    }
    let hw_idx = tbl.count as u8;
    let slot = tbl.count;
    tbl.count = tbl.count + 1;
    tbl.devs.set(slot, Some(CsiDev::new(hw_idx, cfg)));
    Ok(slot as u8)
}

/// Starts receiver `slot` into the buffer at `buf_phys`: PHY power-up,
/// CSID and VFE enable, in that order, the first error being returned;
/// on success the receiver is streaming. `NotFound` for an empty slot.
pub fn csi_start<O: CsiOps>(tbl: &mut CsiDevTable, ops: &mut O, slot: u8, buf_phys: u64) -> (r: Result<(), KernelError>)
    requires
        csi_table_wf(old(tbl)),
        (slot as int) < MAX_CSI_DEVS,
    ensures
        csi_table_wf(final(tbl)),
        final(tbl).count == old(tbl).count,
        old(tbl).devs@[slot as int] is None ==> r == Err::<(), KernelError>(KernelError::NotFound),
        r is Err ==> final(tbl).devs@ == old(tbl).devs@,
        r is Ok ==> old(tbl).devs@[slot as int] is Some && final(tbl).devs@ == old(tbl).devs@.update(slot as int,
            Some(CsiDev { state: CsiState::Streaming, ..old(tbl).devs@[slot as int].unwrap() })),
        old(tbl).devs@[slot as int] is None ==> final(ops).csi_calls() == old(ops).csi_calls(),
        old(tbl).devs@[slot as int] matches Some(d) ==> final(ops).csi_calls().len() >= old(ops).csi_calls().len()
            && final(ops).csi_calls().subrange(0, old(ops).csi_calls().len() as int) == old(ops).csi_calls()
            && start_calls(d.hw_idx, buf_phys, final(ops).csi_calls().subrange(old(ops).csi_calls().len() as int,
            final(ops).csi_calls().len() as int), r),
{
    let s = slot as usize;
    let (hw_idx, cfg) = match &tbl.devs[s] {
        None => return Err(KernelError::NotFound),
        Some(d) => (d.hw_idx, d.cfg),
    };
    let ghost c0 = ops.csi_calls();
    let r1 = ops.phy_power_on(hw_idx);
    if r1.is_err() {
        proof {
            assert(ops.csi_calls().subrange(0, c0.len() as int) =~= c0);
            assert(ops.csi_calls().subrange(c0.len() as int, ops.csi_calls().len() as int) =~= seq![CsiCall::PhyOn(hw_idx, r1)]);
        }
        return r1;
    }
    let r2 = ops.csid_enable(hw_idx, &cfg);
    if r2.is_err() {
        proof {
            assert(ops.csi_calls().subrange(0, c0.len() as int) =~= c0);
            assert(ops.csi_calls().subrange(c0.len() as int, ops.csi_calls().len() as int) =~= seq![
                CsiCall::PhyOn(hw_idx, r1), CsiCall::CsidEnable(hw_idx, r2)]);
        }
        return r2;
    }
    let r3 = ops.vfe_enable(hw_idx, &cfg, buf_phys);
    proof {
        assert(ops.csi_calls().subrange(0, c0.len() as int) =~= c0);
        assert(ops.csi_calls().subrange(c0.len() as int, ops.csi_calls().len() as int) =~= seq![
            CsiCall::PhyOn(hw_idx, r1), CsiCall::CsidEnable(hw_idx, r2), CsiCall::VfeEnable(hw_idx, buf_phys, r3)]);
    }
    if r3.is_err() {
        return r3;
    }
    let mut taken: Option<CsiDev> = None;
    std::mem::swap(&mut tbl.devs[s], &mut taken);
    match taken {
        Some(mut d) => {
            d.state = CsiState::Streaming;
            tbl.devs.set(s, Some(d));
        },
        None => {},
    }
    r3
}

/// Stops receiver `slot`: VFE off, then PHY off; the receiver is idle.
/// Nothing for an empty slot.
pub fn csi_stop<O: CsiOps>(tbl: &mut CsiDevTable, ops: &mut O, slot: u8)
    requires
        csi_table_wf(old(tbl)),
        (slot as int) < MAX_CSI_DEVS,
    ensures
        csi_table_wf(final(tbl)),
        final(tbl).count == old(tbl).count,
        old(tbl).devs@[slot as int] is None ==> final(tbl).devs@ == old(tbl).devs@,
        old(tbl).devs@[slot as int] matches Some(d) ==> final(tbl).devs@ == old(tbl).devs@.update(slot as int,
            Some(CsiDev { state: CsiState::Off, ..d })),
        old(tbl).devs@[slot as int] is None ==> final(ops).csi_calls() == old(ops).csi_calls(),
        old(tbl).devs@[slot as int] matches Some(d) ==> final(ops).csi_calls() == old(ops).csi_calls().push(
            CsiCall::VfeDisable(d.hw_idx)).push(CsiCall::PhyOff(d.hw_idx)),
{
    let s = slot as usize;
    let hw_idx = match &tbl.devs[s] {
        None => return,
        Some(d) => d.hw_idx,
    };
    ops.vfe_disable(hw_idx);
    ops.phy_power_off(hw_idx);
    let mut taken: Option<CsiDev> = None;
    std::mem::swap(&mut tbl.devs[s], &mut taken);
    match taken {
        Some(mut d) => {
            d.state = CsiState::Off;
            tbl.devs.set(s, Some(d));
        },
        None => {},
    }
}

/// Frame-done interrupt of receiver `slot`: returns the frame's sequence
/// number (the counter moves on) and re-arms the VFE interrupt; 0 for an
/// empty slot.
pub fn csi_vfe_irq_handler<R: RegisterIo>(tbl: &mut CsiDevTable, io: &mut R, slot: u8) -> (seq: u32)
    requires
        csi_table_wf(old(tbl)),
        (slot as int) < MAX_CSI_DEVS,
    ensures
        csi_table_wf(final(tbl)),
        final(tbl).count == old(tbl).count,
        old(tbl).devs@[slot as int] is None ==> seq == 0 && final(tbl).devs@ == old(tbl).devs@,
        old(tbl).devs@[slot as int] matches Some(d) ==> seq == d.frame_seq
            && final(tbl).devs@ == old(tbl).devs@.update(slot as int, Some(CsiDev {
                frame_seq: if d.frame_seq == u32::MAX { 0 } else { (d.frame_seq + 1) as u32 },
                ..d
            })),
        old(tbl).devs@[slot as int] is None ==> final(io).trace() == old(io).trace(),
        old(tbl).devs@[slot as int] matches Some(d) ==> final(io).trace() == old(io).trace().push(IoEvent::Write(
            (block_base(VFE_BASE, d.hw_idx) + REG_VFE_IRQ_CMD) as u64, 0x01)),
{
    let s = slot as usize;
    let mut taken: Option<CsiDev> = None;
    std::mem::swap(&mut tbl.devs[s], &mut taken);
    let mut d = match taken {
        None => {
            tbl.devs.set(s, None);
            proof { assert(tbl.devs@ =~= old(tbl).devs@); }
            return 0;
        },
        Some(d) => d,
    };
    let seq = d.frame_seq;
    d.frame_seq = d.frame_seq.wrapping_add(1);
    let hw_idx = d.hw_idx;
    tbl.devs.set(s, Some(d));
    let base = csi_vfe_base(hw_idx);
    io.write_reg(base + REG_VFE_IRQ_CMD, 0x01);
    seq
}

} // verus!
