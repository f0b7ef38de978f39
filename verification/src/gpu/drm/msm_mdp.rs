//! The MDP5 display controller: its table of instances, mode and scan-out
//! register programming, and probing it into a DRM device with one CRTC,
//! one DSI encoder and one DSI connector.
use vstd::prelude::*;
use crate::clk::mmio::{IoEvent, RegisterIo, rmw_events};
use crate::error::KernelError;
use crate::gpu::drm::drm_core::{
    ConnectorStatus, ConnectorType, DrmConnector, DrmCrtc, DrmDev, DrmEncoder, DrmFb, DrmMode, DrmOps, EncoderType,
    PixelFormat, drm_wf,
};

verus! {

pub const MAX_MSM_MDP: usize = 2;

pub const REG_HW_VERSION: u64 = 0x000;
pub const REG_INTF_SEL: u64 = 0x004;
pub const REG_SRC0_ADDR: u64 = 0x100;
pub const REG_SRC_SIZE: u64 = 0x110;
pub const REG_SRC_FORMAT: u64 = 0x120;
pub const REG_SRC_STRIDE: u64 = 0x130;
pub const REG_CTL0_FLUSH: u64 = 0x200;
pub const REG_CTL0_INTF: u64 = 0x204;
pub const REG_VBLANK_IRQ: u64 = 0x300;
pub const REG_DSI_VIDEO_EN: u64 = 0x400;
pub const REG_DSI_HSYNC: u64 = 0x404;
pub const REG_DSI_VSYNC: u64 = 0x408;
pub const REG_DSI_ACTIVE_H: u64 = 0x40C;
pub const REG_DSI_ACTIVE_V: u64 = 0x410;

pub const FMT_ARGB8888: u32 = 0x0000_000A;
pub const FMT_RGB565: u32 = 0x0000_0002;

pub const CTL_FLUSH_RGB0: u32 = 0x8;
pub const CTL_FLUSH_MIXER0: u32 = 0x80;
pub const CTL_FLUSH_INTF: u32 = 0x8000_0000;

/// One controller instance.
pub struct MsmMdpHw {
    pub base: u64,
    pub present: bool,
    pub hw_ver: u32,
    pub flags: u32,
}

impl MsmMdpHw {
    /// An absent instance.
    pub fn empty() -> (h: MsmMdpHw)
        ensures
            h.base == 0 && !h.present && h.hw_ver == 0 && h.flags == 0,
    {
        MsmMdpHw { base: 0, present: false, hw_ver: 0, flags: 0 }
    }
}

/// The controller instances: two slots, the first `count` probed.
pub struct MsmMdpTable {
    pub hw: Vec<MsmMdpHw>,
    pub count: usize,
}

/// Two slots with the count within them.
pub open spec fn mdp_table_wf(t: &MsmMdpTable) -> bool {
    t.hw@.len() == MAX_MSM_MDP && t.count <= MAX_MSM_MDP
}

impl MsmMdpTable {
    /// Two absent instances.
    pub fn new() -> (t: MsmMdpTable)
        ensures
            mdp_table_wf(&t),
            t.count == 0,
    {
        let mut hw: Vec<MsmMdpHw> = Vec::new();
        hw.push(MsmMdpHw::empty());
        hw.push(MsmMdpHw::empty());
        MsmMdpTable { hw, count: 0 }
    }
}

/// The MDP5 as DRM hardware: its instance table and register access.
pub struct MsmMdpOps<R: RegisterIo> {
    pub table: MsmMdpTable,
    pub io: R,
    /// The mode sets asked of it, in order.
    pub log: Ghost<Seq<(u8, u8, DrmMode, Result<(), KernelError>)>>,
    /// The scan-out commits asked of it, in order.
    pub commit_log: Ghost<Seq<(u8, DrmCrtc, DrmFb, Result<(), KernelError>)>>,
}

impl<R: RegisterIo> MsmMdpOps<R> {
    /// The MDP5 driver over instance table `table` and registers `io`,
    /// with no mode set asked yet.
    pub fn new(table: MsmMdpTable, io: R) -> (m: MsmMdpOps<R>)
        ensures
            m.table == table && m.io == io,
    {
        MsmMdpOps { table, io, log: Ghost(Seq::empty()), commit_log: Ghost(Seq::empty()) }
    }
}

/// A base address plus a register offset stays within 64 bits.
pub open spec fn regs_fit(t: &MsmMdpTable, hw_idx: u8) -> bool {
    (hw_idx as int) < MAX_MSM_MDP && t.hw@[hw_idx as int].base + 0x410 <= u64::MAX
}

/// Two 16-bit fields packed as `hi << 16 | lo`.
pub open spec fn pack16(hi: u16, lo: u16) -> u32 {
    ((hi as u32) << 16u32) | (lo as u32)
}

fn pack(hi: u16, lo: u16) -> (w: u32)
    ensures
        w == pack16(hi, lo),
{
    ((hi as u32) << 16u32) | (lo as u32)
}

/// The timing writes for `mode` at the register block `base`: sync start
/// and total, sync end and start for each direction, then video enable.
pub open spec fn mode_writes(base: u64, mode: DrmMode) -> Seq<IoEvent> {
    seq![
        IoEvent::Write((base + REG_DSI_HSYNC) as u64, pack16(mode.hsync_start, mode.htotal)),
        IoEvent::Write((base + REG_DSI_VSYNC) as u64, pack16(mode.vsync_start, mode.vtotal)),
        IoEvent::Write((base + REG_DSI_ACTIVE_H) as u64, pack16(mode.hsync_end, mode.hsync_start)),
        IoEvent::Write((base + REG_DSI_ACTIVE_V) as u64, pack16(mode.vsync_end, mode.vsync_start)),
        IoEvent::Write((base + REG_DSI_VIDEO_EN) as u64, 0x01),
    ]
}

/// The scan-out writes for framebuffer `fb` at the register block `base`:
/// address (low 32 bits), size, stride, format, the DSI interface, then
/// the flush of the RGB0 pipe, mixer 0 and the interface.
pub open spec fn commit_writes(base: u64, fb: DrmFb) -> Seq<IoEvent> {
    seq![
        IoEvent::Write((base + REG_SRC0_ADDR) as u64, fb.phys_addr as u32),
        IoEvent::Write((base + REG_SRC_SIZE) as u64, pack16(fb.width, fb.height)),
        IoEvent::Write((base + REG_SRC_STRIDE) as u64, fb.pitch),
        IoEvent::Write((base + REG_SRC_FORMAT) as u64, if fb.format == PixelFormat::Rgb565 {
            FMT_RGB565
        } else {
            FMT_ARGB8888
        }),
        IoEvent::Write((base + REG_INTF_SEL) as u64, 0x01),
        IoEvent::Write((base + REG_CTL0_INTF) as u64, 0x01),
        IoEvent::Write((base + REG_CTL0_FLUSH) as u64, CTL_FLUSH_RGB0 | CTL_FLUSH_MIXER0 | CTL_FLUSH_INTF),
    ]
}

impl<R: RegisterIo> MsmMdpOps<R> {
    /// Programs the DSI timing registers for `mode` and enables video mode;
    /// `InvalidParameter` for a mode without active area or clock.
    fn mdp5_set_mode(&mut self, hw_idx: u8, mode: &DrmMode) -> (r: Result<(), KernelError>)
        requires
            mdp_table_wf(&old(self).table),
            regs_fit(&old(self).table, hw_idx),
        ensures
            r is Err <==> !(mode.hdisplay > 0 && mode.vdisplay > 0 && mode.clock_khz > 0),
            r is Err ==> r == Err::<(), KernelError>(KernelError::InvalidParameter("mode")),
            final(self).table == old(self).table,
            r is Err ==> final(self).io.trace() == old(self).io.trace(),
            r is Ok ==> final(self).io.trace() == old(self).io.trace() + mode_writes(old(self).table.hw@[hw_idx as int].base,
                *mode),
    {
        if !mode.is_valid() {
            return Err(KernelError::InvalidParameter("mode"));
        }
        let base = self.table.hw[hw_idx as usize].base;
        self.io.write_reg(base + REG_DSI_HSYNC, pack(mode.hsync_start, mode.htotal));
        self.io.write_reg(base + REG_DSI_VSYNC, pack(mode.vsync_start, mode.vtotal));
        self.io.write_reg(base + REG_DSI_ACTIVE_H, pack(mode.hsync_end, mode.hsync_start));
        self.io.write_reg(base + REG_DSI_ACTIVE_V, pack(mode.vsync_end, mode.vsync_start));
        self.io.write_reg(base + REG_DSI_VIDEO_EN, 0x01);
        assert(self.io.trace() =~= old(self).io.trace() + mode_writes(base, *mode));
        Ok(())
    }

    /// Points source pipe 0 at framebuffer `fb`, selects the DSI interface
    /// and flushes the RGB0 pipe, mixer 0 and the interface.
    fn mdp5_atomic_commit(&mut self, hw_idx: u8, fb: &DrmFb) -> (r: Result<(), KernelError>)
        requires
            mdp_table_wf(&old(self).table),
            regs_fit(&old(self).table, hw_idx),
        ensures
            r is Ok,
            final(self).table == old(self).table,
            final(self).io.trace() == old(self).io.trace() + commit_writes(old(self).table.hw@[hw_idx as int].base, *fb),
    {
        let base = self.table.hw[hw_idx as usize].base;
        self.io.write_reg(base + REG_SRC0_ADDR, fb.phys_addr as u32);
        self.io.write_reg(base + REG_SRC_SIZE, pack(fb.width, fb.height));
        self.io.write_reg(base + REG_SRC_STRIDE, fb.pitch);
        let fmt = match fb.format {
            PixelFormat::Rgb565 => FMT_RGB565,
            _ => FMT_ARGB8888,
        };
        self.io.write_reg(base + REG_SRC_FORMAT, fmt);
        self.io.write_reg(base + REG_INTF_SEL, 0x01);
        self.io.write_reg(base + REG_CTL0_INTF, 0x01);
        self.io.write_reg(base + REG_CTL0_FLUSH, CTL_FLUSH_RGB0 | CTL_FLUSH_MIXER0 | CTL_FLUSH_INTF);
        assert(self.io.trace() =~= old(self).io.trace() + commit_writes(base, *fb));
        Ok(())
    }

    /// Sets the vblank interrupt enable bit.
    fn mdp5_enable_vblank(&mut self, hw_idx: u8) -> (r: Result<(), KernelError>)
        requires
            mdp_table_wf(&old(self).table),
            regs_fit(&old(self).table, hw_idx),
        ensures
            r is Ok,
            final(self).table == old(self).table,
            exists|cur: u32| final(self).io.trace() == old(self).io.trace() + #[trigger] rmw_events(
                (old(self).table.hw@[hw_idx as int].base + REG_VBLANK_IRQ) as u64, cur, 0, 1),
    {
        let base = self.table.hw[hw_idx as usize].base;
        crate::clk::mmio::rmw_reg(&mut self.io, base + REG_VBLANK_IRQ, 0, 1);
        Ok(())
    }

    /// Clears the vblank interrupt enable bit.
    fn mdp5_disable_vblank(&mut self, hw_idx: u8)
        requires
            mdp_table_wf(&old(self).table),
            regs_fit(&old(self).table, hw_idx),
        ensures
            final(self).table == old(self).table,
            exists|cur: u32| final(self).io.trace() == old(self).io.trace() + #[trigger] rmw_events(
                (old(self).table.hw@[hw_idx as int].base + REG_VBLANK_IRQ) as u64, cur, 1, 0),
    {
        let base = self.table.hw[hw_idx as usize].base;
        crate::clk::mmio::rmw_reg(&mut self.io, base + REG_VBLANK_IRQ, 1, 0);
    }
}

/// DSI panels cannot be unplugged: always connected.
pub fn mdp5_connector_detect(hw_idx: u8, conn_id: u8) -> (s: ConnectorStatus)
    ensures
        s == ConnectorStatus::Connected,
{
    ConnectorStatus::Connected
}

/// Offers the panel's single mode, 1080 x 2340 at 60 Hz (163 MHz), in the
/// first slot of `out`; returns how many modes were written.
pub fn mdp5_get_modes(hw_idx: u8, conn_id: u8, out: &mut Vec<DrmMode>) -> (n: u8)
    ensures
        old(out)@.len() == 0 ==> n == 0 && final(out)@ == old(out)@,
        old(out)@.len() > 0 ==> n == 1 && final(out)@.len() == old(out)@.len()
            && final(out)@[0].hdisplay == 1080 && final(out)@[0].vdisplay == 2340
            && final(out)@[0].vrefresh == 60 && final(out)@[0].clock_khz == 163_000
            && forall|i: int| 1 <= i < old(out)@.len() ==> #[trigger] final(out)@[i] == old(out)@[i],
{
    if out.len() == 0 {
        return 0;
    }
    out.set(0, DrmMode::new_simple(1080, 2340, 60, 163_000));
    1
}


impl<R: RegisterIo> MsmMdpOps<R> {
    /// Whether instance `hw_idx` can be programmed: a slot of the table
    /// whose register block fits below the top of the address space.
    fn usable(&self, hw_idx: u8) -> (b: bool)
        ensures
            b == (mdp_table_wf(&self.table) && regs_fit(&self.table, hw_idx)),
    {
        self.table.hw.len() == MAX_MSM_MDP && self.table.count <= MAX_MSM_MDP && (hw_idx as usize) < MAX_MSM_MDP
            && self.table.hw[hw_idx as usize].base <= u64::MAX - 0x410
    }
}

impl<R: RegisterIo> DrmOps for MsmMdpOps<R> {
    fn enable_vblank(&mut self, hw_idx: u8, crtc_id: u8) -> (r: Result<(), KernelError>)
        ensures
            !(mdp_table_wf(&old(self).table) && regs_fit(&old(self).table, hw_idx)) ==> r == Err::<(), KernelError>(
                KernelError::InvalidParameter("hw_idx")) && final(self).io.trace() == old(self).io.trace(),
            mdp_table_wf(&old(self).table) && regs_fit(&old(self).table, hw_idx) ==> r is Ok && exists|cur: u32|
                final(self).io.trace() == old(self).io.trace() + #[trigger] rmw_events(
                (old(self).table.hw@[hw_idx as int].base + REG_VBLANK_IRQ) as u64, cur, 0, 1),
    {
        if !self.usable(hw_idx) {
            return Err(KernelError::InvalidParameter("hw_idx"));
        }
        self.mdp5_enable_vblank(hw_idx)
    }

    fn disable_vblank(&mut self, hw_idx: u8, crtc_id: u8)
        ensures
            !(mdp_table_wf(&old(self).table) && regs_fit(&old(self).table, hw_idx)) ==> final(self).io.trace()
                == old(self).io.trace(),
            mdp_table_wf(&old(self).table) && regs_fit(&old(self).table, hw_idx) ==> exists|cur: u32|
                final(self).io.trace() == old(self).io.trace() + #[trigger] rmw_events(
                (old(self).table.hw@[hw_idx as int].base + REG_VBLANK_IRQ) as u64, cur, 1, 0),
    {
        if self.usable(hw_idx) {
            self.mdp5_disable_vblank(hw_idx);
        }
    }

    closed spec fn commits(&self) -> Seq<(u8, DrmCrtc, DrmFb, Result<(), KernelError>)> {
        self.commit_log@
    }

    fn atomic_commit(&mut self, hw_idx: u8, crtc: &DrmCrtc, fb: &DrmFb) -> (r: Result<(), KernelError>)
        ensures
            !(mdp_table_wf(&old(self).table) && regs_fit(&old(self).table, hw_idx)) ==> r == Err::<(), KernelError>(
                KernelError::InvalidParameter("hw_idx")) && final(self).io.trace() == old(self).io.trace(),
            mdp_table_wf(&old(self).table) && regs_fit(&old(self).table, hw_idx) ==> r is Ok && final(self).io.trace()
                == old(self).io.trace() + commit_writes(old(self).table.hw@[hw_idx as int].base, *fb),
    {
        let r = if !self.usable(hw_idx) {
            Err(KernelError::InvalidParameter("hw_idx"))
        } else {
            self.mdp5_atomic_commit(hw_idx, fb)
        };
        self.commit_log = Ghost(old(self).commit_log@.push((hw_idx, *crtc, *fb, r)));
        r
    }

    closed spec fn mode_sets(&self) -> Seq<(u8, u8, DrmMode, Result<(), KernelError>)> {
        self.log@
    }

    fn mode_set(&mut self, hw_idx: u8, crtc_id: u8, mode: &DrmMode) -> (r: Result<(), KernelError>)
        ensures
            r is Err ==> final(self).io.trace() == old(self).io.trace(),
            r is Ok ==> final(self).io.trace() == old(self).io.trace() + mode_writes(
                old(self).table.hw@[hw_idx as int].base, *mode),
            !(mdp_table_wf(&old(self).table) && regs_fit(&old(self).table, hw_idx)) ==> r == Err::<(), KernelError>(
                KernelError::InvalidParameter("hw_idx")),
            mdp_table_wf(&old(self).table) && regs_fit(&old(self).table, hw_idx) ==> (r is Err <==> !(mode.hdisplay > 0
                && mode.vdisplay > 0 && mode.clock_khz > 0)),
    {
        let r = if !self.usable(hw_idx) {
            Err(KernelError::InvalidParameter("hw_idx"))
        } else {
            self.mdp5_set_mode(hw_idx, mode)
        };
        self.log = Ghost(old(self).log@.push((hw_idx, crtc_id, *mode, r)));
        r
    }

    fn connector_detect(&mut self, hw_idx: u8, conn_id: u8) -> ConnectorStatus {
        mdp5_connector_detect(hw_idx, conn_id)
    }

    fn get_modes(&mut self, hw_idx: u8, conn_id: u8, out: &mut Vec<DrmMode>) -> u8 {
        mdp5_get_modes(hw_idx, conn_id, out)
    }
}

/// Probes an MDP5 at `base`: it takes the next instance slot (MDP5
/// version, present), its version register is read, and the DRM device
/// for it gets CRTC 0, a DSI video encoder 0 and a DSI connector 0.
/// `ResourceExhausted` when both slots are taken.
pub fn msm_mdp_probe<R: RegisterIo>(mdp: &mut MsmMdpOps<R>, base: u64) -> (r: Result<DrmDev, KernelError>)
    requires
        mdp_table_wf(&old(mdp).table),
    ensures
        mdp_table_wf(&final(mdp).table),
        old(mdp).table.count >= MAX_MSM_MDP ==> r == Err::<DrmDev, KernelError>(KernelError::ResourceExhausted)
            && final(mdp).table.hw@ == old(mdp).table.hw@ && final(mdp).table.count == old(mdp).table.count,
        old(mdp).table.count < MAX_MSM_MDP ==> r is Ok && ({
            let slot = old(mdp).table.count as int;
            let d = r.unwrap();
            &&& final(mdp).table.count == slot + 1
            &&& final(mdp).table.hw@ == old(mdp).table.hw@.update(slot, MsmMdpHw { base: base, present: true, hw_ver: 0x0500_0000, flags: 0 })
            &&& drm_wf(&d)
            &&& d.hw_idx == slot
            &&& d.crtc_count == 1 && d.crtcs@[0].id == 0
            &&& d.enc_count == 1 && d.encoders@[0].id == 0 && d.encoders@[0].enc_type == EncoderType::DsiVideo
            &&& d.conn_count == 1 && d.connectors@[0].id == 0 && d.connectors@[0].conn_type == ConnectorType::MipiDsi
            &&& d.fb_count == 0 && d.next_fb_id == 1
        }),
{
    if mdp.table.count >= MAX_MSM_MDP {
        return Err(KernelError::ResourceExhausted);
    }
    let slot = mdp.table.count;
    let hw_idx = slot as u8;
    mdp.table.count = mdp.table.count + 1;
    mdp.table.hw.set(slot, MsmMdpHw { base, present: true, hw_ver: 0x0500_0000, flags: 0 });
    let _ver = mdp.io.read_reg(base + REG_HW_VERSION);
    let mut dev = DrmDev::new(hw_idx);
    dev.add_crtc(DrmCrtc::new(0))?;
    dev.add_encoder(DrmEncoder::new(0, EncoderType::DsiVideo))?;
    dev.add_connector(DrmConnector::new(0, ConnectorType::MipiDsi))?;
    Ok(dev)
}

} // verus!
