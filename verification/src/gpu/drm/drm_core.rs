//! DRM core: display modes, framebuffers, the CRTC / encoder / connector
//! objects of a device, the device table, and atomic mode set and page
//! flip through the hardware's operations.
use vstd::prelude::*;
use crate::error::KernelError;

verus! {

pub const MAX_DRM_DEVS: usize = 2;
pub const MAX_CONNECTORS: usize = 4;
pub const MAX_CRTCS: usize = 4;
pub const MAX_ENCODERS: usize = 4;
pub const MAX_FBS: usize = 8;
pub const DRM_MODE_NAME_LEN: usize = 32;
pub const MAX_MODES_PER_CONNECTOR: usize = 8;

/// A display mode: pixel clock and horizontal / vertical timings.
#[derive(Clone, Copy)]
pub struct DrmMode {
    pub name: [u8; 32],
    pub name_len: u8,
    /// Pixel clock in kHz.
    pub clock_khz: u32,
    pub hdisplay: u16,
    pub hsync_start: u16,
    pub hsync_end: u16,
    pub htotal: u16,
    pub vdisplay: u16,
    pub vsync_start: u16,
    pub vsync_end: u16,
    pub vtotal: u16,
    pub flags: u32,
    pub type_: u8,
    /// Refresh rate in Hz.
    pub vrefresh: u8,
}

impl DrmMode {
    /// The all-zero mode.
    pub fn zero() -> (m: DrmMode)
        ensures
            m.name@ == Seq::new(32, |i: int| 0u8),
            m.name_len == 0 && m.clock_khz == 0,
            m.hdisplay == 0 && m.hsync_start == 0 && m.hsync_end == 0 && m.htotal == 0,
            m.vdisplay == 0 && m.vsync_start == 0 && m.vsync_end == 0 && m.vtotal == 0,
            m.flags == 0 && m.type_ == 0 && m.vrefresh == 0,
    {
        let m = DrmMode {
            name: [0u8; 32],
            name_len: 0,
            clock_khz: 0,
            hdisplay: 0,
            hsync_start: 0,
            hsync_end: 0,
            htotal: 0,
            vdisplay: 0,
            vsync_start: 0,
            vsync_end: 0,
            vtotal: 0,
            flags: 0,
            type_: 0,
            vrefresh: 0,
        };
        assert(m.name@ =~= Seq::new(32, |i: int| 0u8));
        m
    }

    /// A progressive `w` x `h` mode at `hz` with pixel clock `clock_khz`;
    /// blanking: 160 pixels (sync 24..56 after the active area) and 45 lines
    /// (sync 5..14).
    pub fn new_simple(w: u16, h: u16, hz: u8, clock_khz: u32) -> (m: DrmMode)
        requires
            w <= u16::MAX - 160,
            h <= u16::MAX - 45,
        ensures
            m.name@ == Seq::new(32, |i: int| 0u8),
            m.name_len == 0 && m.flags == 0 && m.type_ == 0,
            m.hdisplay == w && m.vdisplay == h && m.vrefresh == hz && m.clock_khz == clock_khz,
            m.htotal == w + 160 && m.vtotal == h + 45,
            m.hsync_start == w + 24 && m.hsync_end == w + 56,
            m.vsync_start == h + 5 && m.vsync_end == h + 14,
    {
        let mut m = DrmMode::zero();
        m.hdisplay = w;
        m.vdisplay = h;
        m.vrefresh = hz;
        m.clock_khz = clock_khz;
        m.htotal = w + 160;
        m.vtotal = h + 45;
        m.hsync_start = w + 24;
        m.hsync_end = w + 56;
        m.vsync_start = h + 5;
        m.vsync_end = h + 14;
        m
    }

    /// A mode is usable when it has an active area and a pixel clock.
    pub fn is_valid(&self) -> (b: bool)
        ensures
            b == (self.hdisplay > 0 && self.vdisplay > 0 && self.clock_khz > 0),
    {
        self.hdisplay > 0 && self.vdisplay > 0 && self.clock_khz > 0
    }
}

/// Pixel layouts of framebuffers.
#[derive(Clone, Copy, PartialEq, Eq, Structural, Debug)]
pub enum PixelFormat {
    Xrgb8888,
    Argb8888,
    Rgb565,
    Yuyv,
}

/// Bytes per pixel of a format: 2 for RGB565 and YUYV, 4 otherwise.
pub open spec fn bytes_per_pixel(f: PixelFormat) -> u32 {
    match f {
        PixelFormat::Rgb565 => 2,
        PixelFormat::Yuyv => 2,
        _ => 4,
    }
}

/// A framebuffer: size, row pitch, format and where its pixels are.
#[derive(Clone, Copy)]
pub struct DrmFb {
    pub id: u32,
    pub width: u16,
    pub height: u16,
    /// Bytes per row.
    pub pitch: u32,
    pub format: PixelFormat,
    pub phys_addr: u64,
    /// Total bytes.
    pub size: u32,
    pub valid: bool,
}

impl DrmFb {
    /// An unused slot.
    pub fn empty() -> (f: DrmFb)
        ensures
            f.id == 0 && f.width == 0 && f.height == 0 && f.pitch == 0,
            f.format == PixelFormat::Xrgb8888,
            f.phys_addr == 0 && f.size == 0 && !f.valid,
    {
        DrmFb { id: 0, width: 0, height: 0, pitch: 0, format: PixelFormat::Xrgb8888, phys_addr: 0, size: 0, valid: false }
    }
}

/// Whether a CRTC scans out.
#[derive(Debug, Clone, Copy, PartialEq, Eq, Structural)]
pub enum CrtcState {
    Disabled,
    Active,
}

/// A scan-out engine.
#[derive(Clone, Copy)]
pub struct DrmCrtc {
    pub id: u8,
    pub state: CrtcState,
    pub mode: DrmMode,
    pub fb_id: u32,
    pub x: u16,
    pub y: u16,
}

impl DrmCrtc {
    /// A disabled CRTC with the zero mode and no framebuffer.
    pub fn new(id: u8) -> (c: DrmCrtc)
        ensures
            c.id == id && c.state == CrtcState::Disabled,
            c.mode.hdisplay == 0 && c.mode.vdisplay == 0 && c.mode.clock_khz == 0,
            c.fb_id == 0 && c.x == 0 && c.y == 0,
    {
        DrmCrtc { id, state: CrtcState::Disabled, mode: DrmMode::zero(), fb_id: 0, x: 0, y: 0 }
    }
}

/// Kinds of encoders.
#[derive(Debug, Clone, Copy, PartialEq, Eq, Structural)]
pub enum EncoderType {
    NoEncoder,
    Dac,
    Tmds,
    Lvds,
    DsiCmd,
    DsiVideo,
    Dp,
}

/// An encoder and the CRTC feeding it.
#[derive(Clone, Copy)]
pub struct DrmEncoder {
    pub id: u8,
    pub enc_type: EncoderType,
    pub crtc_id: u8,
}

impl DrmEncoder {
    /// An encoder fed by CRTC 0.
    pub fn new(id: u8, enc_type: EncoderType) -> (e: DrmEncoder)
        ensures
            e.id == id && e.enc_type == enc_type && e.crtc_id == 0,
    {
        DrmEncoder { id, enc_type, crtc_id: 0 }
    }
}

/// Kinds of connectors.
#[derive(Debug, Clone, Copy, PartialEq, Eq, Structural)]
pub enum ConnectorType {
    Unknown,
    VGA,
    DVI,
    HDMIA,
    HDMIB,
    MipiDsi,
    EDP,
    DP,
}

/// Whether something is plugged into a connector.
#[derive(Debug, Clone, Copy, PartialEq, Eq, Structural)]
pub enum ConnectorStatus {
    Connected,
    Disconnected,
    Unknown,
}

/// A connector with up to eight modes.
pub struct DrmConnector {
    pub id: u8,
    pub conn_type: ConnectorType,
    pub status: ConnectorStatus,
    pub encoder_id: u8,
    /// Eight slots; the first `mode_count` are in use.
    pub modes: Vec<DrmMode>,
    pub mode_count: u8,
    pub current_mode: DrmMode,
}

/// Eight zero modes.
fn zero_modes() -> (v: Vec<DrmMode>)
    ensures
        v@.len() == MAX_MODES_PER_CONNECTOR,
{
    let mut v: Vec<DrmMode> = Vec::new();
    let mut i: usize = 0;
    while i < MAX_MODES_PER_CONNECTOR
        invariant
            i <= MAX_MODES_PER_CONNECTOR,
            v@.len() == i,
        decreases MAX_MODES_PER_CONNECTOR - i,
    {
        v.push(DrmMode::zero());
        i = i + 1;
    }
    v
}

/// A connector whose mode table has its eight slots and a count within it.
pub open spec fn connector_wf(c: &DrmConnector) -> bool {
    c.modes@.len() == MAX_MODES_PER_CONNECTOR && c.mode_count <= MAX_MODES_PER_CONNECTOR
}

impl DrmConnector {
    /// A connector in unknown state with no modes.
    pub fn new(id: u8, conn_type: ConnectorType) -> (c: DrmConnector)
        ensures
            connector_wf(&c),
            c.id == id && c.conn_type == conn_type,
            c.status == ConnectorStatus::Unknown,
            c.encoder_id == 0 && c.mode_count == 0,
    {
        DrmConnector {
            id,
            conn_type,
            status: ConnectorStatus::Unknown,
            encoder_id: 0,
            modes: zero_modes(),
            mode_count: 0,
            current_mode: DrmMode::zero(),
        }
    }

    /// Appends a mode; `ResourceExhausted` when all eight slots are used.
    pub fn add_mode(&mut self, mode: DrmMode) -> (r: Result<(), KernelError>)
        requires
            connector_wf(old(self)),
        ensures
            connector_wf(final(self)),
            old(self).mode_count >= MAX_MODES_PER_CONNECTOR ==> r == Err::<(), KernelError>(KernelError::ResourceExhausted)
                && final(self).modes@ == old(self).modes@ && final(self).mode_count == old(self).mode_count,
            old(self).mode_count < MAX_MODES_PER_CONNECTOR ==> r is Ok
                && final(self).modes@ == old(self).modes@.update(old(self).mode_count as int, mode)
                && final(self).mode_count == old(self).mode_count + 1,
            final(self).id == old(self).id && final(self).conn_type == old(self).conn_type,
            final(self).status == old(self).status && final(self).encoder_id == old(self).encoder_id,
            final(self).current_mode == old(self).current_mode,
    {
        if self.mode_count as usize >= MAX_MODES_PER_CONNECTOR {
            return Err(KernelError::ResourceExhausted);
        }
        let i = self.mode_count as usize;
        self.modes.set(i, mode);
        self.mode_count = self.mode_count + 1;
        Ok(())
    }
}

/// Display hardware operations, supplied by the controller driver.
pub trait DrmOps {
    fn enable_vblank(&mut self, hw_idx: u8, crtc_id: u8) -> Result<(), KernelError>;

    fn disable_vblank(&mut self, hw_idx: u8, crtc_id: u8);

    /// The `atomic_commit` calls made, in order: device, CRTC, framebuffer
    /// and result. Every implementation in this library keeps it; the empty
    /// default stands only for implementations made outside it, which
    /// verification does not see.
    closed spec fn commits(&self) -> Seq<(u8, DrmCrtc, DrmFb, Result<(), KernelError>)> {
        Seq::empty()
    }

    fn atomic_commit(&mut self, hw_idx: u8, crtc: &DrmCrtc, fb: &DrmFb) -> (r: Result<(), KernelError>)
        ensures
            final(self).commits() == old(self).commits().push((hw_idx, *crtc, *fb, r));

    /// The `mode_set` calls made, in order: device, CRTC, mode and result.
    /// Every implementation in this library keeps it; the empty default
    /// stands only for implementations made outside it, which verification
    /// does not see.
    closed spec fn mode_sets(&self) -> Seq<(u8, u8, DrmMode, Result<(), KernelError>)> {
        Seq::empty()
    }

    fn mode_set(&mut self, hw_idx: u8, crtc_id: u8, mode: &DrmMode) -> (r: Result<(), KernelError>)
        ensures
            final(self).mode_sets() == old(self).mode_sets().push((hw_idx, crtc_id, *mode, r));

    fn connector_detect(&mut self, hw_idx: u8, conn_id: u8) -> ConnectorStatus;

    fn get_modes(&mut self, hw_idx: u8, conn_id: u8, out: &mut Vec<DrmMode>) -> u8;
}

/// Power state of a DRM device.
#[derive(Debug, Clone, Copy, PartialEq, Eq, Structural)]
pub enum DrmState {
    Uninitialized,
    Suspended,
    Active,
    Error,
}

/// A DRM device: fixed tables of CRTCs, encoders, connectors and
/// framebuffers, each with its count of used slots.
pub struct DrmDev {
    pub hw_idx: u8,
    pub state: DrmState,
    pub crtcs: Vec<DrmCrtc>,
    pub crtc_count: u8,
    pub encoders: Vec<DrmEncoder>,
    pub enc_count: u8,
    pub connectors: Vec<DrmConnector>,
    pub conn_count: u8,
    pub fbs: Vec<DrmFb>,
    pub fb_count: u8,
    pub next_fb_id: u32,
}

/// Table sizes and counts of a device are consistent.
pub open spec fn drm_wf(d: &DrmDev) -> bool {
    &&& d.crtcs@.len() == MAX_CRTCS && d.crtc_count <= MAX_CRTCS
    &&& d.encoders@.len() == MAX_ENCODERS && d.enc_count <= MAX_ENCODERS
    &&& d.connectors@.len() == MAX_CONNECTORS && d.conn_count <= MAX_CONNECTORS
    &&& d.fbs@.len() == MAX_FBS && d.fb_count <= MAX_FBS
}

/// `b` is `a` with only its framebuffer table changed.
pub open spec fn same_but_fbs(a: &DrmDev, b: &DrmDev) -> bool {
    a.hw_idx == b.hw_idx && a.state == b.state && a.crtcs@ == b.crtcs@ && a.crtc_count == b.crtc_count
        && a.encoders@ == b.encoders@ && a.enc_count == b.enc_count && a.connectors@ == b.connectors@
        && a.conn_count == b.conn_count
}

impl DrmDev {
    /// A device for hardware instance `hw_idx` with empty tables; the first
    /// framebuffer id is 1.
    pub fn new(hw_idx: u8) -> (d: DrmDev)
        ensures
            drm_wf(&d),
            d.hw_idx == hw_idx && d.state == DrmState::Uninitialized,
            d.crtc_count == 0 && d.enc_count == 0 && d.conn_count == 0 && d.fb_count == 0,
            d.next_fb_id == 1,
    {
        let mut crtcs: Vec<DrmCrtc> = Vec::new();
        let mut encoders: Vec<DrmEncoder> = Vec::new();
        let mut connectors: Vec<DrmConnector> = Vec::new();
        let mut i: usize = 0;
        while i < 4
            invariant
                i <= 4,
                crtcs@.len() == i && encoders@.len() == i && connectors@.len() == i,
            decreases 4 - i,
        {
            crtcs.push(DrmCrtc::new(0));
            encoders.push(DrmEncoder { id: 0, enc_type: EncoderType::NoEncoder, crtc_id: 0 });
            connectors.push(DrmConnector::new(0, ConnectorType::Unknown));
            i = i + 1;
        }
        let mut fbs: Vec<DrmFb> = Vec::new();
        let mut j: usize = 0;
        while j < MAX_FBS
            invariant
                j <= MAX_FBS,
                fbs@.len() == j,
            decreases MAX_FBS - j,
        {
            fbs.push(DrmFb::empty());
            j = j + 1;
        }
        DrmDev {
            hw_idx,
            state: DrmState::Uninitialized,
            crtcs,
            crtc_count: 0,
            encoders,
            enc_count: 0,
            connectors,
            conn_count: 0,
            fbs,
            fb_count: 0,
            next_fb_id: 1,
        }
    }

    /// Adds a CRTC in the next free slot; `ResourceExhausted` when full.
    pub fn add_crtc(&mut self, crtc: DrmCrtc) -> (r: Result<(), KernelError>)
        requires
            drm_wf(old(self)),
        ensures
            drm_wf(final(self)),
            old(self).crtc_count >= MAX_CRTCS ==> r == Err::<(), KernelError>(KernelError::ResourceExhausted)
                && final(self).crtcs@ == old(self).crtcs@ && final(self).crtc_count == old(self).crtc_count,
            old(self).crtc_count < MAX_CRTCS ==> r is Ok
                && final(self).crtcs@ == old(self).crtcs@.update(old(self).crtc_count as int, crtc)
                && final(self).crtc_count == old(self).crtc_count + 1,
            final(self).encoders@ == old(self).encoders@ && final(self).enc_count == old(self).enc_count,
            final(self).connectors@ == old(self).connectors@ && final(self).conn_count == old(self).conn_count,
            final(self).fbs@ == old(self).fbs@ && final(self).fb_count == old(self).fb_count,
            final(self).hw_idx == old(self).hw_idx && final(self).state == old(self).state,
            final(self).next_fb_id == old(self).next_fb_id,
    {
        if self.crtc_count as usize >= MAX_CRTCS {
            return Err(KernelError::ResourceExhausted);
        }
        let i = self.crtc_count as usize;
        self.crtcs.set(i, crtc);
        self.crtc_count = self.crtc_count + 1;
        Ok(())
    }

    /// Adds an encoder in the next free slot; `ResourceExhausted` when full.
    pub fn add_encoder(&mut self, enc: DrmEncoder) -> (r: Result<(), KernelError>)
        requires
            drm_wf(old(self)),
        ensures
            drm_wf(final(self)),
            old(self).enc_count >= MAX_ENCODERS ==> r == Err::<(), KernelError>(KernelError::ResourceExhausted)
                && final(self).encoders@ == old(self).encoders@ && final(self).enc_count == old(self).enc_count,
            old(self).enc_count < MAX_ENCODERS ==> r is Ok
                && final(self).encoders@ == old(self).encoders@.update(old(self).enc_count as int, enc)
                && final(self).enc_count == old(self).enc_count + 1,
            final(self).crtcs@ == old(self).crtcs@ && final(self).crtc_count == old(self).crtc_count,
            final(self).connectors@ == old(self).connectors@ && final(self).conn_count == old(self).conn_count,
            final(self).fbs@ == old(self).fbs@ && final(self).fb_count == old(self).fb_count,
            final(self).hw_idx == old(self).hw_idx && final(self).state == old(self).state,
            final(self).next_fb_id == old(self).next_fb_id,
    {
        if self.enc_count as usize >= MAX_ENCODERS {
            return Err(KernelError::ResourceExhausted);
        }
        let i = self.enc_count as usize;
        self.encoders.set(i, enc);
        self.enc_count = self.enc_count + 1;
        Ok(())
    }

    /// Adds a connector in the next free slot; `ResourceExhausted` when full.
    pub fn add_connector(&mut self, conn: DrmConnector) -> (r: Result<(), KernelError>)
        requires
            drm_wf(old(self)),
        ensures
            drm_wf(final(self)),
            old(self).conn_count >= MAX_CONNECTORS ==> r == Err::<(), KernelError>(KernelError::ResourceExhausted)
                && final(self).connectors@ == old(self).connectors@ && final(self).conn_count == old(self).conn_count,
            old(self).conn_count < MAX_CONNECTORS ==> r is Ok
                && final(self).connectors@ == old(self).connectors@.update(old(self).conn_count as int, conn)
                && final(self).conn_count == old(self).conn_count + 1,
            final(self).crtcs@ == old(self).crtcs@ && final(self).crtc_count == old(self).crtc_count,
            final(self).encoders@ == old(self).encoders@ && final(self).enc_count == old(self).enc_count,
            final(self).fbs@ == old(self).fbs@ && final(self).fb_count == old(self).fb_count,
            final(self).hw_idx == old(self).hw_idx && final(self).state == old(self).state,
            final(self).next_fb_id == old(self).next_fb_id,
    {
        if self.conn_count as usize >= MAX_CONNECTORS {
            return Err(KernelError::ResourceExhausted);
        }
        let i = self.conn_count as usize;
        self.connectors.set(i, conn);
        self.conn_count = self.conn_count + 1;
        Ok(())
    }

    /// Allocates a `w` x `h` framebuffer of format `fmt` at `phys` in the next
    /// free slot, with pitch `w * bpp` and size `pitch * h`, and returns its
    /// id (ids count up from 1). `ResourceExhausted` when all slots are used.
    pub fn alloc_fb(&mut self, w: u16, h: u16, fmt: PixelFormat, phys: u64) -> (r: Result<u32, KernelError>)
        requires
            drm_wf(old(self)),
            old(self).next_fb_id < u32::MAX,
            w * bytes_per_pixel(fmt) * h <= u32::MAX,
        ensures
            drm_wf(final(self)),
            same_but_fbs(old(self), final(self)),
            old(self).fb_count >= MAX_FBS ==> r == Err::<u32, KernelError>(KernelError::ResourceExhausted)
                && final(self).fbs@ == old(self).fbs@ && final(self).fb_count == old(self).fb_count
                && final(self).next_fb_id == old(self).next_fb_id,
            old(self).fb_count < MAX_FBS ==> r == Ok::<u32, KernelError>(old(self).next_fb_id)
                && final(self).fb_count == old(self).fb_count + 1
                && final(self).next_fb_id == old(self).next_fb_id + 1
                && final(self).fbs@ == old(self).fbs@.update(old(self).fb_count as int, DrmFb {
                    id: old(self).next_fb_id,
                    width: w,
                    height: h,
                    pitch: (w * bytes_per_pixel(fmt)) as u32,
                    format: fmt,
                    phys_addr: phys,
                    size: (w * bytes_per_pixel(fmt) * h) as u32,
                    valid: true,
                }),
    {
        if self.fb_count as usize >= MAX_FBS {
            return Err(KernelError::ResourceExhausted);
        }
        let bpp: u32 = match fmt {
            PixelFormat::Rgb565 => 2,
            PixelFormat::Yuyv => 2,
            _ => 4,
        };
        assert(bpp == bytes_per_pixel(fmt));
        assert(w * bpp <= w * bpp * h || h == 0) by (nonlinear_arith)
            requires bpp > 0;
        assert(w * bpp <= u32::MAX) by (nonlinear_arith)
            requires w <= u16::MAX, bpp <= 4;
        let pitch = w as u32 * bpp;
        let size = pitch * h as u32;
        let id = self.next_fb_id;
        self.next_fb_id = self.next_fb_id + 1;
        let idx = self.fb_count as usize;
        self.fbs.set(idx, DrmFb { id, width: w, height: h, pitch, format: fmt, phys_addr: phys, size, valid: true });
        self.fb_count = self.fb_count + 1;
        Ok(id)
    }

    /// The first framebuffer in use with id `id`.
    pub fn find_fb(&self, id: u32) -> (r: Option<&DrmFb>)
        requires
            drm_wf(self),
        ensures
            r is None <==> forall|i: int| 0 <= i < self.fb_count ==> (#[trigger] self.fbs@[i]).id != id,
            r is Some ==> exists|i: int| 0 <= i < self.fb_count && *r.unwrap() == self.fbs@[i]
                && (forall|j: int| 0 <= j < i ==> (#[trigger] self.fbs@[j]).id != id),
            r is Some ==> r.unwrap().id == id,
    {
        let n = self.fb_count as usize;
        let mut i: usize = 0;
        while i < n
            invariant
                drm_wf(self),
                n == self.fb_count,
                i <= n,
                forall|j: int| 0 <= j < i ==> (#[trigger] self.fbs@[j]).id != id,
            decreases n - i,
        {
            if self.fbs[i].id == id {
                return Some(&self.fbs[i]);
            }
            i = i + 1;
        }
        None
    }
}


/// The registered DRM devices: two slots, the first `count` in use.
pub struct DrmDevTable {
    pub devs: Vec<Option<DrmDev>>,
    pub count: usize,
}

/// Two slots, with the count within them.
pub open spec fn table_wf(t: &DrmDevTable) -> bool {
    t.devs@.len() == MAX_DRM_DEVS && t.count <= MAX_DRM_DEVS
}

impl DrmDevTable {
    /// Two empty slots.
    pub fn new() -> (t: DrmDevTable)
        ensures
            table_wf(&t),
            t.count == 0,
            t.devs@[0] is None && t.devs@[1] is None,
    {
        let mut devs: Vec<Option<DrmDev>> = Vec::new();
        devs.push(None);
        devs.push(None);
        DrmDevTable { devs, count: 0 }
    }
}

/// Registers `dev` in the next free slot and returns the slot;
/// `ResourceExhausted` when both are taken.
pub fn drm_register(tbl: &mut DrmDevTable, dev: DrmDev) -> (r: Result<u8, KernelError>)
    requires
        table_wf(old(tbl)),
    ensures
        table_wf(final(tbl)),
        old(tbl).count >= MAX_DRM_DEVS ==> r == Err::<u8, KernelError>(KernelError::ResourceExhausted)
            && final(tbl).devs@ == old(tbl).devs@ && final(tbl).count == old(tbl).count,
        old(tbl).count < MAX_DRM_DEVS ==> r == Ok::<u8, KernelError>(old(tbl).count as u8)
            && final(tbl).devs@ == old(tbl).devs@.update(old(tbl).count as int, Some(dev))
            && final(tbl).count == old(tbl).count + 1,
{
    if tbl.count >= MAX_DRM_DEVS {
        return Err(KernelError::ResourceExhausted);
    }
    let slot = tbl.count;
    tbl.devs.set(slot, Some(dev));
    tbl.count = tbl.count + 1;
    Ok(slot as u8)
}

/// CRTC `i` of `d` after a mode set: the mode and framebuffer, active.
pub open spec fn crtc_after_mode_set(c: DrmCrtc, mode: DrmMode, fb_id: u32) -> DrmCrtc {
    DrmCrtc { mode: mode, fb_id: fb_id, state: CrtcState::Active, ..c }
}

/// Atomic mode set on device `slot`: the hardware's `mode_set` runs first
/// (its error is returned as is); then CRTC `crtc_id` takes the mode and
/// framebuffer and becomes active, and connector `conn_id`, if it is in
/// use, records the mode. `NotFound` for an empty slot; `InvalidParameter`
/// when the CRTC is not in use (after the hardware call).
pub fn drm_set_mode<O: DrmOps>(
    tbl: &mut DrmDevTable,
    ops: &mut O,
    slot: u8,
    crtc_id: u8,
    conn_id: u8,
    mode: DrmMode,
    fb_id: u32,
) -> (r: Result<(), KernelError>)
    requires
        table_wf(old(tbl)),
        (slot as int) < MAX_DRM_DEVS,
        old(tbl).devs@[slot as int] matches Some(d) ==> drm_wf(&d),
    ensures
        table_wf(final(tbl)),
        final(tbl).count == old(tbl).count,
        old(tbl).devs@[slot as int] is None ==> r == Err::<(), KernelError>(KernelError::NotFound)
            && final(ops).mode_sets() == old(ops).mode_sets(),
        old(tbl).devs@[slot as int] matches Some(d) ==> final(ops).mode_sets().len() == old(ops).mode_sets().len() + 1
            && final(ops).mode_sets().drop_last() == old(ops).mode_sets()
            && final(ops).mode_sets().last().0 == d.hw_idx && final(ops).mode_sets().last().1 == crtc_id
            && final(ops).mode_sets().last().2 == mode && ({
                let hw_r = final(ops).mode_sets().last().3;
                &&& hw_r is Err ==> r == hw_r
                &&& hw_r is Ok && crtc_id >= d.crtc_count ==> r == Err::<(), KernelError>(KernelError::InvalidParameter("crtc_id"))
                &&& hw_r is Ok && crtc_id < d.crtc_count ==> r is Ok
            }),
        r is Err ==> final(tbl).devs@ == old(tbl).devs@,
        r is Ok ==> old(tbl).devs@[slot as int] is Some && ({
            let d0 = old(tbl).devs@[slot as int].unwrap();
            let d1 = final(tbl).devs@[slot as int].unwrap();
            &&& crtc_id < d0.crtc_count
            &&& final(tbl).devs@ == old(tbl).devs@.update(slot as int, Some(d1))
            &&& drm_wf(&d1)
            &&& d1.crtcs@ == d0.crtcs@.update(crtc_id as int, crtc_after_mode_set(d0.crtcs@[crtc_id as int], mode, fb_id))
            &&& d1.connectors@.len() == d0.connectors@.len()
            &&& forall|i: int| 0 <= i < d0.connectors@.len() && i != conn_id ==> #[trigger] d1.connectors@[i] == d0.connectors@[i]
            &&& (conn_id as int) < d0.conn_count ==> d1.connectors@[conn_id as int].current_mode == mode
                && d1.connectors@[conn_id as int].modes@ == d0.connectors@[conn_id as int].modes@
                && d1.connectors@[conn_id as int].mode_count == d0.connectors@[conn_id as int].mode_count
            &&& (conn_id as int) >= d0.conn_count ==> d1.connectors@ == d0.connectors@
            &&& d1.hw_idx == d0.hw_idx && d1.state == d0.state && d1.crtc_count == d0.crtc_count
            &&& d1.encoders@ == d0.encoders@ && d1.enc_count == d0.enc_count && d1.conn_count == d0.conn_count
            &&& d1.fbs@ == d0.fbs@ && d1.fb_count == d0.fb_count && d1.next_fb_id == d0.next_fb_id
        }),
{
    let s = slot as usize;
    let hw_idx = match &tbl.devs[s] {
        None => return Err(KernelError::NotFound),
        Some(d) => d.hw_idx,
    };
    let hw_r = ops.mode_set(hw_idx, crtc_id, &mode);
    proof {
        assert(ops.mode_sets().drop_last() =~= old(ops).mode_sets());
    }
    if let Err(e) = hw_r {
        return Err(e);
    }
    let mut taken: Option<DrmDev> = None;
    std::mem::swap(&mut tbl.devs[s], &mut taken);
    let mut d = match taken {
        None => return Err(KernelError::NotFound),
        Some(d) => d,
    };
    if crtc_id as usize >= d.crtc_count as usize {
        tbl.devs.set(s, Some(d));
        proof { assert(tbl.devs@ =~= old(tbl).devs@); }
        return Err(KernelError::InvalidParameter("crtc_id"));
    }
    let c = crtc_id as usize;
    let mut crtc = d.crtcs[c];
    crtc.mode = mode;
    crtc.fb_id = fb_id;
    crtc.state = CrtcState::Active;
    d.crtcs.set(c, crtc);
    if (conn_id as usize) < (d.conn_count as usize) {
        let k = conn_id as usize;
        let mut conn = DrmConnector::new(0, ConnectorType::Unknown);
        std::mem::swap(&mut d.connectors[k], &mut conn);
        conn.current_mode = mode;
        d.connectors.set(k, conn);
    }
    tbl.devs.set(s, Some(d));
    Ok(())
}

/// Whether a flip of `fb_id` on CRTC `crtc_id` of the device in `slot`
/// reaches the hardware: the device is there, has that CRTC and that
/// framebuffer.
pub open spec fn flip_commits(devs: Seq<Option<DrmDev>>, slot: u8, crtc_id: u8, fb_id: u32) -> bool {
    &&& devs[slot as int] is Some
    &&& crtc_id < devs[slot as int].unwrap().crtc_count
    &&& exists|i: int| 0 <= i < devs[slot as int].unwrap().fb_count && (#[trigger] devs[slot as int].unwrap().fbs@[i]).id
        == fb_id
}

/// Page flip on device `slot`: CRTC `crtc_id` is committed with
/// framebuffer `fb_id` through the hardware's `atomic_commit` (its error
/// is returned as is), after which the CRTC shows that framebuffer.
/// `NotFound` for an empty slot or an unknown framebuffer;
/// `InvalidParameter` when the CRTC is not in use.
pub fn drm_flip<O: DrmOps>(tbl: &mut DrmDevTable, ops: &mut O, slot: u8, crtc_id: u8, fb_id: u32) -> (r: Result<(), KernelError>)
    requires
        table_wf(old(tbl)),
        (slot as int) < MAX_DRM_DEVS,
        old(tbl).devs@[slot as int] matches Some(d) ==> drm_wf(&d),
    ensures
        table_wf(final(tbl)),
        final(tbl).count == old(tbl).count,
        old(tbl).devs@[slot as int] is None ==> r == Err::<(), KernelError>(KernelError::NotFound),
        old(tbl).devs@[slot as int] matches Some(d) && crtc_id >= d.crtc_count
            ==> r == Err::<(), KernelError>(KernelError::InvalidParameter("crtc_id")),
        old(tbl).devs@[slot as int] matches Some(d) && crtc_id < d.crtc_count
            && (forall|i: int| 0 <= i < d.fb_count ==> (#[trigger] d.fbs@[i]).id != fb_id)
            ==> r == Err::<(), KernelError>(KernelError::NotFound),
        r is Err ==> final(tbl).devs@ == old(tbl).devs@,
        flip_commits(old(tbl).devs@, slot, crtc_id, fb_id) ==> final(ops).commits().len() == old(ops).commits().len() + 1
            && final(ops).commits().drop_last() == old(ops).commits() && ({
                let d = old(tbl).devs@[slot as int].unwrap();
                let c = final(ops).commits().last();
                &&& c.0 == d.hw_idx && c.1 == d.crtcs@[crtc_id as int] && c.2.id == fb_id
                &&& (r is Ok <==> c.3 is Ok)
                &&& (c.3 matches Err(e) ==> r == Err::<(), KernelError>(e))
            }),
        !flip_commits(old(tbl).devs@, slot, crtc_id, fb_id) ==> final(ops).commits() == old(ops).commits(),
        r is Ok ==> old(tbl).devs@[slot as int] is Some && ({
            let d0 = old(tbl).devs@[slot as int].unwrap();
            &&& crtc_id < d0.crtc_count
            &&& exists|i: int| 0 <= i < d0.fb_count && (#[trigger] d0.fbs@[i]).id == fb_id
            &&& final(tbl).devs@ == old(tbl).devs@.update(slot as int, Some(DrmDev {
                crtcs: final(tbl).devs@[slot as int].unwrap().crtcs,
                ..d0
            }))
            &&& final(tbl).devs@[slot as int].unwrap().crtcs@ == d0.crtcs@.update(crtc_id as int,
                DrmCrtc { fb_id: fb_id, ..d0.crtcs@[crtc_id as int] })
        }),
{
    let s = slot as usize;
    let (hw_idx, crtc, fb) = match &tbl.devs[s] {
        None => return Err(KernelError::NotFound),
        Some(d) => {
            if crtc_id as usize >= d.crtc_count as usize {
                return Err(KernelError::InvalidParameter("crtc_id"));
            }
            let fb = match d.find_fb(fb_id) {
                None => return Err(KernelError::NotFound),
                Some(f) => *f,
            };
            (d.hw_idx, d.crtcs[crtc_id as usize], fb)
        },
    };
    ops.atomic_commit(hw_idx, &crtc, &fb)?;
    let mut taken: Option<DrmDev> = None;
    std::mem::swap(&mut tbl.devs[s], &mut taken);
    let mut d = match taken {
        None => return Err(KernelError::NotFound),
        Some(d) => d,
    };
    let c = crtc_id as usize;
    let mut cr = d.crtcs[c];
    cr.fb_id = fb_id;
    d.crtcs.set(c, cr);
    tbl.devs.set(s, Some(d));
    Ok(())
}

} // verus!
