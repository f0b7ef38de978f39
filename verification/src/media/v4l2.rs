//! V4L2 capture: pixel formats and frame geometry, buffers with their
//! ownership states, and the device table with buffer request, queue,
//! completion and dequeue.
use vstd::prelude::*;
use crate::error::KernelError;

verus! {

pub const MAX_V4L2_DEVS: usize = 16;
pub const MAX_V4L2_BUFS: usize = 8;
pub const V4L2_NAME_LEN: usize = 32;

/// Pixel formats.
#[derive(Debug, Clone, Copy, PartialEq, Eq, Structural)]
pub enum V4l2PixFmt {
    Yuyv,
    Yvyu,
    Nv12,
    Nv21,
    Yuv420,
    Rgb565,
    Rgb24,
    Bgr24,
    Argb32,
    Jpeg,
    H264,
    Hevc,
    Raw10,
    Raw12,
}

/// Bytes per pixel used for line sizes (semi-planar and planar YUV and
/// compressed formats count as 1).
pub open spec fn bpp_spec(f: V4l2PixFmt) -> u32 {
    match f {
        V4l2PixFmt::Yuyv | V4l2PixFmt::Yvyu => 2,
        V4l2PixFmt::Nv12 | V4l2PixFmt::Nv21 => 1,
        V4l2PixFmt::Yuv420 => 1,
        V4l2PixFmt::Rgb565 => 2,
        V4l2PixFmt::Rgb24 | V4l2PixFmt::Bgr24 => 3,
        V4l2PixFmt::Argb32 => 4,
        V4l2PixFmt::Raw10 => 2,
        V4l2PixFmt::Raw12 => 2,
        _ => 1,
    }
}

impl V4l2PixFmt {
    /// Bytes per pixel (see `bpp_spec`).
    pub fn bpp(&self) -> (b: u32)
        ensures
            b == bpp_spec(*self),
    {
        match self {
            V4l2PixFmt::Yuyv | V4l2PixFmt::Yvyu => 2,
            V4l2PixFmt::Nv12 | V4l2PixFmt::Nv21 => 1,
            V4l2PixFmt::Yuv420 => 1,
            V4l2PixFmt::Rgb565 => 2,
            V4l2PixFmt::Rgb24 | V4l2PixFmt::Bgr24 => 3,
            V4l2PixFmt::Argb32 => 4,
            V4l2PixFmt::Raw10 => 2,
            V4l2PixFmt::Raw12 => 2,
            _ => 1,
        }
    }

    /// The FourCC code of a format.
    pub open spec fn fourcc_spec(self) -> u32 {
        match self {
            V4l2PixFmt::Yuyv => 0x5659_5559,
            V4l2PixFmt::Yvyu => 0x5559_5659,
            V4l2PixFmt::Nv12 => 0x3231_564E,
            V4l2PixFmt::Nv21 => 0x3132_564E,
            V4l2PixFmt::Yuv420 => 0x3032_3449,
            V4l2PixFmt::Rgb565 => 0x5042_4752,
            V4l2PixFmt::Rgb24 => 0x4742_5233,
            V4l2PixFmt::Bgr24 => 0x5233_4742,
            V4l2PixFmt::Argb32 => 0x4241_5247,
            V4l2PixFmt::Jpeg => 0x4745_504A,
            V4l2PixFmt::H264 => 0x3436_3248,
            V4l2PixFmt::Hevc => 0x4356_4548,
            V4l2PixFmt::Raw10 => 0x3031_4752,
            V4l2PixFmt::Raw12 => 0x3231_4752,
        }
    }

    /// The format's FourCC code.
    pub fn fourcc(&self) -> (r: u32)
        ensures
            r == self.fourcc_spec(),
    {
        match self {
            V4l2PixFmt::Yuyv => 0x5659_5559,
            V4l2PixFmt::Yvyu => 0x5559_5659,
            V4l2PixFmt::Nv12 => 0x3231_564E,
            V4l2PixFmt::Nv21 => 0x3132_564E,
            V4l2PixFmt::Yuv420 => 0x3032_3449,
            V4l2PixFmt::Rgb565 => 0x5042_4752,
            V4l2PixFmt::Rgb24 => 0x4742_5233,
            V4l2PixFmt::Bgr24 => 0x5233_4742,
            V4l2PixFmt::Argb32 => 0x4241_5247,
            V4l2PixFmt::Jpeg => 0x4745_504A,
            V4l2PixFmt::H264 => 0x3436_3248,
            V4l2PixFmt::Hevc => 0x4356_4548,
            V4l2PixFmt::Raw10 => 0x3031_4752,
            V4l2PixFmt::Raw12 => 0x3231_4752,
        }
    }
}

/// Frame geometry: size, format, line and image sizes, field order.
#[derive(Clone, Copy)]
pub struct V4l2Fmt {
    pub width: u32,
    pub height: u32,
    pub pixfmt: V4l2PixFmt,
    pub bytesperline: u32,
    pub sizeimage: u32,
    pub field: u8,
}

impl V4l2Fmt {
    /// A `w` x `h` frame of `fmt`: lines of `w * bpp` bytes, images of
    /// `height` lines, progressive.
    pub fn new(w: u32, h: u32, fmt: V4l2PixFmt) -> (f: V4l2Fmt)
        requires
            w * bpp_spec(fmt) <= u32::MAX,
            w * bpp_spec(fmt) * h <= u32::MAX,
        ensures
            f.width == w && f.height == h && f.pixfmt == fmt && f.field == 0,
            f.bytesperline == w * bpp_spec(fmt),
            f.sizeimage == w * bpp_spec(fmt) * h,
    {
        let b = fmt.bpp();
        let bpl = w * b;
        V4l2Fmt { width: w, height: h, pixfmt: fmt, bytesperline: bpl, sizeimage: bpl * h, field: 0 }
    }

    /// The empty geometry (YUYV, 0 x 0).
    pub fn zero() -> (f: V4l2Fmt)
        ensures
            f.width == 0 && f.height == 0 && f.pixfmt == V4l2PixFmt::Yuyv && f.bytesperline == 0 && f.sizeimage == 0
                && f.field == 0,
    {
        V4l2Fmt { width: 0, height: 0, pixfmt: V4l2PixFmt::Yuyv, bytesperline: 0, sizeimage: 0, field: 0 }
    }
}

/// Who holds a buffer: the application, the driver's queue, the hardware,
/// or (filled) the done list.
#[derive(Debug, Clone, Copy, PartialEq, Eq, Structural)]
pub enum BufState {
    Dequeued,
    InQueue,
    Active,
    Done,
    Error,
}

/// A capture buffer.
#[derive(Clone, Copy)]
pub struct V4l2Buffer {
    pub index: u32,
    pub state: BufState,
    pub phys_addr: u64,
    pub length: u32,
    pub bytesused: u32,
    pub sequence: u32,
    pub timestamp_us: u64,
}

impl V4l2Buffer {
    /// An unused buffer held by the application.
    pub fn empty() -> (b: V4l2Buffer)
        ensures
            b.index == 0 && b.state == BufState::Dequeued && b.phys_addr == 0 && b.length == 0 && b.bytesused == 0
                && b.sequence == 0 && b.timestamp_us == 0,
    {
        V4l2Buffer { index: 0, state: BufState::Dequeued, phys_addr: 0, length: 0, bytesused: 0, sequence: 0, timestamp_us: 0 }
    }
}

/// Capture hardware operations, supplied by the camera driver.
pub trait V4l2Ops {
    fn open(&mut self, hw_idx: u8) -> Result<(), KernelError>;

    fn close(&mut self, hw_idx: u8);

    fn set_fmt(&mut self, hw_idx: u8, fmt: &V4l2Fmt) -> Result<V4l2Fmt, KernelError>;

    /// The `stream_on` calls made, in order: device and result. Every
    /// implementation in this library keeps it; the empty default stands
    /// only for implementations made outside it, which verification does
    /// not see.
    closed spec fn streams(&self) -> Seq<(u8, Result<(), KernelError>)> {
        Seq::empty()
    }

    fn stream_on(&mut self, hw_idx: u8) -> (r: Result<(), KernelError>)
        ensures
            final(self).streams() == old(self).streams().push((hw_idx, r));

    fn stream_off(&mut self, hw_idx: u8);

    /// The `queue_buf` calls made, in order: device, buffer and result.
    /// Every implementation in this library keeps it; the empty default
    /// stands only for implementations made outside it, which verification
    /// does not see.
    closed spec fn queued(&self) -> Seq<(u8, u32, Result<(), KernelError>)> {
        Seq::empty()
    }

    fn queue_buf(&mut self, hw_idx: u8, buf_idx: u32) -> (r: Result<(), KernelError>)
        ensures
            final(self).queued() == old(self).queued().push((hw_idx, buf_idx, r));

    /// A finished frame: buffer index, bytes used, timestamp.
    fn get_frame(&mut self, hw_idx: u8) -> Option<(u32, u32, u64)>;
}

/// Device states.
#[derive(Debug, Clone, Copy, PartialEq, Eq, Structural)]
pub enum V4l2State {
    Closed,
    Opened,
    Configured,
    Streaming,
    Error,
}

/// A capture device: eight buffer slots (`buf_count` in use), the frame
/// sequence counter, and a name of up to 32 bytes.
pub struct V4l2Dev {
    pub hw_idx: u8,
    pub state: V4l2State,
    pub fmt: V4l2Fmt,
    pub bufs: Vec<V4l2Buffer>,
    pub buf_count: u32,
    pub seq: u32,
    pub name: Vec<u8>,
    pub name_len: u8,
}

/// Slot and name sizes are consistent.
pub open spec fn v4l2_dev_wf(d: &V4l2Dev) -> bool {
    d.bufs@.len() == MAX_V4L2_BUFS && d.buf_count <= MAX_V4L2_BUFS && d.name@.len() == V4L2_NAME_LEN
        && d.name_len <= V4L2_NAME_LEN
}

impl V4l2Dev {
    /// A closed device for hardware `hw_idx` named by the first 32 bytes of
    /// `name`, with no buffers and the empty geometry.
    pub fn new(hw_idx: u8, name: &[u8]) -> (d: V4l2Dev)
        ensures
            v4l2_dev_wf(&d),
            d.hw_idx == hw_idx && d.state == V4l2State::Closed && d.buf_count == 0 && d.seq == 0,
            d.fmt.width == 0 && d.fmt.height == 0 && d.fmt.sizeimage == 0,
            d.name_len == (if name@.len() < V4L2_NAME_LEN { name@.len() as int } else { V4L2_NAME_LEN as int }),
            d.name@.subrange(0, d.name_len as int) == name@.subrange(0, d.name_len as int),
    {
        let len: usize = if name.len() < V4L2_NAME_LEN { name.len() } else { V4L2_NAME_LEN };
        let mut n: Vec<u8> = Vec::new();
        let mut i: usize = 0;
        while i < V4L2_NAME_LEN
            invariant
                i <= V4L2_NAME_LEN,
                len <= name@.len(),
                len <= V4L2_NAME_LEN,
                n@.len() == i,
                forall|k: int| 0 <= k < i && k < len ==> #[trigger] n@[k] == name@[k],
            decreases V4L2_NAME_LEN - i,
        {
            if i < len {
                n.push(name[i]);
            } else {
                n.push(0u8);
            }
            i = i + 1;
        }
        let mut bufs: Vec<V4l2Buffer> = Vec::new();
        let mut j: usize = 0;
        while j < MAX_V4L2_BUFS
            invariant
                j <= MAX_V4L2_BUFS,
                bufs@.len() == j,
            decreases MAX_V4L2_BUFS - j,
        {
            bufs.push(V4l2Buffer::empty());
            j = j + 1;
        }
        assert(n@.subrange(0, len as int) =~= name@.subrange(0, len as int));
        V4l2Dev {
            hw_idx,
            state: V4l2State::Closed,
            fmt: V4l2Fmt::zero(),
            bufs,
            buf_count: 0,
            seq: 0,
            name: n,
            name_len: len as u8,
        }
    }

    /// The device's name.
    pub fn name_str(&self) -> (s: &[u8])
        requires
            v4l2_dev_wf(self),
        ensures
            s@ == self.name@.subrange(0, self.name_len as int),
    {
        &self.name.as_slice()[0..self.name_len as usize]
    }
}

/// Sixteen device slots, the first `count` in use.
pub struct V4l2DevTable {
    pub devs: Vec<Option<V4l2Dev>>,
    pub count: usize,
}

/// Sixteen slots with the count within them, and every device consistent.
pub open spec fn v4l2_table_wf(t: &V4l2DevTable) -> bool {
    &&& t.devs@.len() == MAX_V4L2_DEVS && t.count <= MAX_V4L2_DEVS
    &&& forall|i: int| 0 <= i < t.devs@.len() && (#[trigger] t.devs@[i]) is Some ==> v4l2_dev_wf(&t.devs@[i].unwrap())
}

impl V4l2DevTable {
    /// Sixteen empty slots.
    pub fn new() -> (t: V4l2DevTable)
        ensures
            v4l2_table_wf(&t),
            t.count == 0,
            forall|i: int| 0 <= i < MAX_V4L2_DEVS ==> #[trigger] t.devs@[i] is None,
    {
        let mut devs: Vec<Option<V4l2Dev>> = Vec::new();
        let mut i: usize = 0;
        while i < MAX_V4L2_DEVS
            invariant
                i <= MAX_V4L2_DEVS,
                devs@.len() == i,
                forall|k: int| 0 <= k < i ==> #[trigger] devs@[k] is None,
            decreases MAX_V4L2_DEVS - i,
        {
            devs.push(None);
            i = i + 1;
        }
        V4l2DevTable { devs, count: 0 }
    }
}

/// Registers `dev` in the next free slot and returns the slot;
/// `ResourceExhausted` when all are taken.
pub fn v4l2_register(tbl: &mut V4l2DevTable, dev: V4l2Dev) -> (r: Result<u8, KernelError>)
    requires
        v4l2_table_wf(old(tbl)),
        v4l2_dev_wf(&dev),
    ensures
        v4l2_table_wf(final(tbl)),
        old(tbl).count >= MAX_V4L2_DEVS ==> r == Err::<u8, KernelError>(KernelError::ResourceExhausted)
            && final(tbl).devs@ == old(tbl).devs@ && final(tbl).count == old(tbl).count,
        old(tbl).count < MAX_V4L2_DEVS ==> r == Ok::<u8, KernelError>(old(tbl).count as u8)
            && final(tbl).devs@ == old(tbl).devs@.update(old(tbl).count as int, Some(dev))
            && final(tbl).count == old(tbl).count + 1,
{
    if tbl.count >= MAX_V4L2_DEVS {
        return Err(KernelError::ResourceExhausted);
    }
    let slot = tbl.count;
    tbl.devs.set(slot, Some(dev));
    tbl.count = tbl.count + 1;
    Ok(slot as u8)
}

/// Takes the device out of `slot`, leaving the slot empty.
fn take_dev(tbl: &mut V4l2DevTable, slot: usize) -> (d: Option<V4l2Dev>)
    requires
        v4l2_table_wf(old(tbl)),
        slot < MAX_V4L2_DEVS,
    ensures
        d == old(tbl).devs@[slot as int],
        final(tbl).devs@ == old(tbl).devs@.update(slot as int, None),
        final(tbl).count == old(tbl).count,
        v4l2_table_wf(final(tbl)),
{
    let mut d: Option<V4l2Dev> = None;
    std::mem::swap(&mut tbl.devs[slot], &mut d);
    d
}

/// Buffer `i` of a request of buffers of `size` bytes from `base`.
pub open spec fn requested_buf(i: int, base: u64, size: u32) -> V4l2Buffer {
    V4l2Buffer {
        index: i as u32,
        state: BufState::Dequeued,
        phys_addr: (base + i * size) as u64,
        length: size,
        bytesused: 0,
        sequence: 0,
        timestamp_us: 0,
    }
}

/// Sets up `min(count, 8)` buffers of the device's image size laid out
/// back to back from `base_phys`, all held by the application, and returns
/// how many; the device becomes configured. `NotFound` for an empty slot.
pub fn v4l2_reqbufs(tbl: &mut V4l2DevTable, slot: u8, count: u32, base_phys: u64) -> (r: Result<u32, KernelError>)
    requires
        v4l2_table_wf(old(tbl)),
        (slot as int) < MAX_V4L2_DEVS,
        old(tbl).devs@[slot as int] matches Some(d) ==> base_phys + MAX_V4L2_BUFS * d.fmt.sizeimage <= u64::MAX,
    ensures
        v4l2_table_wf(final(tbl)),
        final(tbl).count == old(tbl).count,
        old(tbl).devs@[slot as int] is None ==> r == Err::<u32, KernelError>(KernelError::NotFound)
            && final(tbl).devs@ == old(tbl).devs@,
        old(tbl).devs@[slot as int] matches Some(d0) ==> ({
            let n: u32 = if count < MAX_V4L2_BUFS { count } else { MAX_V4L2_BUFS as u32 };
            let d1 = final(tbl).devs@[slot as int].unwrap();
            &&& r == Ok::<u32, KernelError>(n)
            &&& final(tbl).devs@ == old(tbl).devs@.update(slot as int, Some(d1))
            &&& d1.buf_count == n && d1.state == V4l2State::Configured
            &&& d1.hw_idx == d0.hw_idx && d1.fmt == d0.fmt && d1.seq == d0.seq && d1.name@ == d0.name@
                && d1.name_len == d0.name_len
            &&& d1.bufs@.len() == MAX_V4L2_BUFS
            &&& forall|i: int| 0 <= i < n ==> #[trigger] d1.bufs@[i] == requested_buf(i, base_phys, d0.fmt.sizeimage)
            &&& forall|i: int| n <= i < MAX_V4L2_BUFS ==> #[trigger] d1.bufs@[i] == d0.bufs@[i]
        }),
{
    let actual: u32 = if count < MAX_V4L2_BUFS as u32 { count } else { MAX_V4L2_BUFS as u32 };
    let s = slot as usize;
    let mut d = match take_dev(tbl, s) {
        None => {
            proof { assert(tbl.devs@ =~= old(tbl).devs@); }
            return Err(KernelError::NotFound);
        },
        Some(d) => d,
    };
    let ghost d0 = d;
    let buf_size = d.fmt.sizeimage;
    let mut i: usize = 0;
    while i < actual as usize
        invariant
            actual <= MAX_V4L2_BUFS,
            i <= actual,
            d.bufs@.len() == MAX_V4L2_BUFS,
            buf_size == d0.fmt.sizeimage,
            base_phys + MAX_V4L2_BUFS * buf_size <= u64::MAX,
            forall|k: int| 0 <= k < i ==> #[trigger] d.bufs@[k] == requested_buf(k, base_phys, buf_size),
            forall|k: int| i <= k < MAX_V4L2_BUFS ==> #[trigger] d.bufs@[k] == d0.bufs@[k],
            d.hw_idx == d0.hw_idx && d.fmt == d0.fmt && d.seq == d0.seq && d.name@ == d0.name@ && d.name_len == d0.name_len
                && d.state == d0.state && d.buf_count == d0.buf_count,
        decreases actual - i,
    {
        assert((i as u64) * (buf_size as u64) <= MAX_V4L2_BUFS * buf_size) by (nonlinear_arith)
            requires i < 8;
        let b = V4l2Buffer {
            index: i as u32,
            state: BufState::Dequeued,
            phys_addr: base_phys + (i as u64) * (buf_size as u64),
            length: buf_size,
            bytesused: 0,
            sequence: 0,
            timestamp_us: 0,
        };
        d.bufs.set(i, b);
        i = i + 1;
    }
    d.buf_count = actual;
    d.state = V4l2State::Configured;
    tbl.devs.set(s, Some(d));
    Ok(actual)
}


/// `d1` is `d0` with only buffer `i` changed.
pub open spec fn only_buf_changed(d0: &V4l2Dev, d1: &V4l2Dev, i: int) -> bool {
    &&& d1.hw_idx == d0.hw_idx && d1.state == d0.state && d1.fmt == d0.fmt && d1.buf_count == d0.buf_count
    &&& d1.name@ == d0.name@ && d1.name_len == d0.name_len
    &&& d1.bufs@.len() == d0.bufs@.len()
    &&& forall|k: int| 0 <= k < d0.bufs@.len() && k != i ==> #[trigger] d1.bufs@[k] == d0.bufs@[k]
}

/// Hands buffer `buf_idx` to the driver: it goes from the application to
/// the queue, then the hardware's `queue_buf` is called (its error is
/// returned, the buffer staying queued). `NotFound` for an empty slot,
/// `InvalidParameter` for a buffer not in use, `OperationFailed` for one
/// the application does not hold.
pub fn v4l2_qbuf<O: V4l2Ops>(tbl: &mut V4l2DevTable, ops: &mut O, slot: u8, buf_idx: u32) -> (r: Result<(), KernelError>)
    requires
        v4l2_table_wf(old(tbl)),
        (slot as int) < MAX_V4L2_DEVS,
    ensures
        v4l2_table_wf(final(tbl)),
        final(tbl).count == old(tbl).count,
        old(tbl).devs@[slot as int] is None ==> r == Err::<(), KernelError>(KernelError::NotFound)
            && final(tbl).devs@ == old(tbl).devs@ && final(ops).queued() == old(ops).queued(),
        old(tbl).devs@[slot as int] matches Some(d0) ==> ({
            &&& buf_idx >= d0.buf_count ==> r == Err::<(), KernelError>(KernelError::InvalidParameter("buf_idx"))
                && final(tbl).devs@ == old(tbl).devs@ && final(ops).queued() == old(ops).queued()
            &&& buf_idx < d0.buf_count && d0.bufs@[buf_idx as int].state != BufState::Dequeued
                ==> r == Err::<(), KernelError>(KernelError::OperationFailed) && final(tbl).devs@ == old(tbl).devs@
                && final(ops).queued() == old(ops).queued()
            &&& buf_idx < d0.buf_count && d0.bufs@[buf_idx as int].state == BufState::Dequeued ==> ({
                let d1 = final(tbl).devs@[slot as int].unwrap();
                &&& final(ops).queued() == old(ops).queued().push((d0.hw_idx, buf_idx, r))
                &&& final(tbl).devs@ == old(tbl).devs@.update(slot as int, Some(d1))
                &&& only_buf_changed(&d0, &d1, buf_idx as int)
                &&& d1.seq == d0.seq
                &&& d1.bufs@[buf_idx as int] == V4l2Buffer { state: BufState::InQueue, ..d0.bufs@[buf_idx as int] }
            })
        }),
{
    let s = slot as usize;
    let mut d = match take_dev(tbl, s) {
        None => {
            proof { assert(tbl.devs@ =~= old(tbl).devs@); }
            return Err(KernelError::NotFound);
        },
        Some(d) => d,
    };
    if buf_idx >= d.buf_count {
        tbl.devs.set(s, Some(d));
        proof { assert(tbl.devs@ =~= old(tbl).devs@); }
        return Err(KernelError::InvalidParameter("buf_idx"));
    }
    let b = buf_idx as usize;
    if d.bufs[b].state != BufState::Dequeued {
        tbl.devs.set(s, Some(d));
        proof { assert(tbl.devs@ =~= old(tbl).devs@); }
        return Err(KernelError::OperationFailed);
    }
    let mut nb = d.bufs[b];
    nb.state = BufState::InQueue;
    d.bufs.set(b, nb);
    let hw_idx = d.hw_idx;
    tbl.devs.set(s, Some(d));
    ops.queue_buf(hw_idx, buf_idx)
}

/// Hands the first filled buffer (in index order) back to the application
/// and returns it as it was when filled. `NotFound` for an empty slot or
/// when no buffer is filled.
pub fn v4l2_dqbuf(tbl: &mut V4l2DevTable, slot: u8) -> (r: Result<V4l2Buffer, KernelError>)
    requires
        v4l2_table_wf(old(tbl)),
        (slot as int) < MAX_V4L2_DEVS,
    ensures
        v4l2_table_wf(final(tbl)),
        final(tbl).count == old(tbl).count,
        old(tbl).devs@[slot as int] is None ==> r == Err::<V4l2Buffer, KernelError>(KernelError::NotFound)
            && final(tbl).devs@ == old(tbl).devs@,
        old(tbl).devs@[slot as int] matches Some(d0) ==> ({
            &&& (forall|i: int| 0 <= i < d0.buf_count ==> (#[trigger] d0.bufs@[i]).state != BufState::Done)
                ==> r == Err::<V4l2Buffer, KernelError>(KernelError::NotFound) && final(tbl).devs@ == old(tbl).devs@
            &&& (exists|i: int| 0 <= i < d0.buf_count && (#[trigger] d0.bufs@[i]).state == BufState::Done) ==> r is Ok
            &&& r is Ok ==> exists|i: int| 0 <= i < d0.buf_count && d0.bufs@[i].state == BufState::Done
                && (forall|j: int| 0 <= j < i ==> (#[trigger] d0.bufs@[j]).state != BufState::Done)
                && r == Ok::<V4l2Buffer, KernelError>(d0.bufs@[i])
                && ({
                    let d1 = final(tbl).devs@[slot as int].unwrap();
                    &&& final(tbl).devs@ == old(tbl).devs@.update(slot as int, Some(d1))
                    &&& only_buf_changed(&d0, &d1, i) && d1.seq == d0.seq
                    &&& d1.bufs@[i] == V4l2Buffer { state: BufState::Dequeued, ..d0.bufs@[i] }
                })
        }),
{
    let s = slot as usize;
    let mut d = match take_dev(tbl, s) {
        None => {
            proof { assert(tbl.devs@ =~= old(tbl).devs@); }
            return Err(KernelError::NotFound);
        },
        Some(d) => d,
    };
    let ghost d0 = d;
    let n = d.buf_count as usize;
    let mut i: usize = 0;
    while i < n
        invariant
            d == d0,
            n == d0.buf_count,
            s == slot as usize,
            s < MAX_V4L2_DEVS,
            old(tbl).devs@.len() == MAX_V4L2_DEVS,
            old(tbl).devs@[s as int] == Some(d0),
            tbl.devs@ == old(tbl).devs@.update(s as int, None),
            tbl.count == old(tbl).count,
            v4l2_table_wf(tbl),
            v4l2_dev_wf(&d),
            i <= n,
            forall|j: int| 0 <= j < i ==> (#[trigger] d.bufs@[j]).state != BufState::Done,
        decreases n - i,
    {
        if d.bufs[i].state == BufState::Done {
            let buf = d.bufs[i];
            let mut nb = buf;
            nb.state = BufState::Dequeued;
            d.bufs.set(i, nb);
            let ghost d1 = d;
            tbl.devs.set(s, Some(d));
            proof {
                assert(tbl.devs@[s as int].unwrap() == d1);
                assert(tbl.devs@ =~= old(tbl).devs@.update(s as int, Some(d1)));
                assert(only_buf_changed(&d0, &d1, i as int));
                assert(d1.bufs@[i as int] == V4l2Buffer { state: BufState::Dequeued, ..d0.bufs@[i as int] });
            }
            return Ok(buf);
        }
        i = i + 1;
    }
    tbl.devs.set(s, Some(d));
    proof { assert(tbl.devs@ =~= old(tbl).devs@); }
    Err(KernelError::NotFound)
}

/// Marks the device streaming and starts the hardware (whose result is
/// returned). `NotFound` for an empty slot.
pub fn v4l2_stream_on<O: V4l2Ops>(tbl: &mut V4l2DevTable, ops: &mut O, slot: u8) -> (r: Result<(), KernelError>)
    requires
        v4l2_table_wf(old(tbl)),
        (slot as int) < MAX_V4L2_DEVS,
    ensures
        v4l2_table_wf(final(tbl)),
        final(tbl).count == old(tbl).count,
        old(tbl).devs@[slot as int] is None ==> r == Err::<(), KernelError>(KernelError::NotFound)
            && final(tbl).devs@ == old(tbl).devs@,
        old(tbl).devs@[slot as int] matches Some(d0) ==> final(tbl).devs@ == old(tbl).devs@.update(slot as int,
            Some(V4l2Dev { state: V4l2State::Streaming, ..d0 })),
        old(tbl).devs@[slot as int] is None ==> final(ops).streams() == old(ops).streams(),
        old(tbl).devs@[slot as int] matches Some(d0) ==> final(ops).streams() == old(ops).streams().push((d0.hw_idx, r)),
{
    let s = slot as usize;
    let mut d = match take_dev(tbl, s) {
        None => {
            proof { assert(tbl.devs@ =~= old(tbl).devs@); }
            return Err(KernelError::NotFound);
        },
        Some(d) => d,
    };
    d.state = V4l2State::Streaming;
    let hw_idx = d.hw_idx;
    tbl.devs.set(s, Some(d));
    ops.stream_on(hw_idx)
}

/// Completion of buffer `buf_idx`: it is filled (`bytesused`, timestamp)
/// and gets the device's next sequence number. Nothing for an empty slot
/// or a buffer not in use.
pub fn v4l2_buf_done(tbl: &mut V4l2DevTable, slot: u8, buf_idx: u32, bytesused: u32, ts_us: u64)
    requires
        v4l2_table_wf(old(tbl)),
        (slot as int) < MAX_V4L2_DEVS,
    ensures
        v4l2_table_wf(final(tbl)),
        final(tbl).count == old(tbl).count,
        old(tbl).devs@[slot as int] is None ==> final(tbl).devs@ == old(tbl).devs@,
        old(tbl).devs@[slot as int] matches Some(d0) ==> ({
            &&& buf_idx >= d0.buf_count ==> final(tbl).devs@ == old(tbl).devs@
            &&& buf_idx < d0.buf_count ==> ({
                let d1 = final(tbl).devs@[slot as int].unwrap();
                &&& final(tbl).devs@ == old(tbl).devs@.update(slot as int, Some(d1))
                &&& only_buf_changed(&d0, &d1, buf_idx as int)
                &&& d1.seq == (if d0.seq == u32::MAX { 0 } else { d0.seq + 1 })
                &&& d1.bufs@[buf_idx as int] == V4l2Buffer {
                    state: BufState::Done,
                    bytesused: bytesused,
                    sequence: d0.seq,
                    timestamp_us: ts_us,
                    ..d0.bufs@[buf_idx as int]
                }
            })
        }),
{
    let s = slot as usize;
    let mut d = match take_dev(tbl, s) {
        None => {
            proof { assert(tbl.devs@ =~= old(tbl).devs@); }
            return;
        },
        Some(d) => d,
    };
    if buf_idx < d.buf_count {
        let seq = d.seq;
        d.seq = d.seq.wrapping_add(1);
        let b = buf_idx as usize;
        let mut nb = d.bufs[b];
        nb.state = BufState::Done;
        nb.bytesused = bytesused;
        nb.sequence = seq;
        nb.timestamp_us = ts_us;
        d.bufs.set(b, nb);
    }
    tbl.devs.set(s, Some(d));
    proof {
        if old(tbl).devs@[slot as int] is Some && buf_idx >= old(tbl).devs@[slot as int].unwrap().buf_count {
            assert(tbl.devs@ =~= old(tbl).devs@);
        }
    }
}

} // verus!
