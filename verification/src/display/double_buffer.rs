//! An off-screen back buffer: pixel, rectangle and line drawing clipped to
//! the visible area, whole-buffer clear and copy, and flipping to the
//! framebuffer.
use vstd::prelude::*;
use crate::display::framebuffer::{Framebuffer, FramebufferMemory, fill_writes};

verus! {

/// Largest buffer: 1920 x 1080 pixels.
pub const MAX_FB_PIXELS: usize = 2_073_600;

/// Back-buffer errors.
#[derive(Debug, Clone, Copy)]
pub enum BufferError {
    StorageTooSmall { needed: usize, got: usize },
}

/// A back buffer with the framebuffer's geometry.
pub struct DoubleBuffer {
    back: Vec<u32>,
    width: u32,
    height: u32,
    stride: u32,
}

/// Word of pixel (`col`, `row`) in rows of `stride` pixels.
pub open spec fn cell(stride: u32, row: int, col: int) -> int {
    row * stride + col
}

/// `a`, but no more than `lim`.
pub open spec fn clip(a: int, lim: int) -> int {
    if a < lim {
        a
    } else {
        lim
    }
}

/// Whether word `i` is the word of some pixel in rows `y0..y1` and
/// columns `x0..x1`.
pub open spec fn in_area(stride: u32, x0: int, y0: int, x1: int, y1: int, i: int) -> bool {
    exists|r: int, c: int| y0 <= r < y1 && x0 <= c < x1 && #[trigger] cell(stride, r, c) == i
}

/// The words a `fill_rect(x, y, w, h, ..)` paints in a buffer of visible
/// size `width` x `height`: its rectangle clipped to the visible area.
pub open spec fn rect_area(stride: u32, width: u32, height: u32, x: int, y: int, w: int, h: int, i: int) -> bool {
    in_area(stride, x, y, clip(x + w, width as int), clip(y + h, height as int), i)
}

/// The words a `draw_rect_border(x, y, w, h, t, ..)` paints: its top,
/// bottom, left and right bands, each clipped to the visible area.
pub open spec fn border_area(stride: u32, width: u32, height: u32, x: int, y: int, w: int, h: int, t: int, i: int) -> bool {
    ||| rect_area(stride, width, height, x, y, w, t, i)
    ||| rect_area(stride, width, height, x, y + h - t, w, t, i)
    ||| rect_area(stride, width, height, x, y, t, h, i)
    ||| rect_area(stride, width, height, x + w - t, y, t, h, i)
}

/// A row offset plus a column, all below 2^32, fits 64 bits.
proof fn lemma_cell_fits(row: u32, stride: u32, col: u32)
    ensures
        (row as u64) * (stride as u64) + (col as u64) <= u64::MAX,
        cell(stride, row as int, col as int) == (row as u64) * (stride as u64) + (col as u64),
{
    assert(row * stride <= 0xffff_ffff * 0xffff_ffff) by (nonlinear_arith)
        requires row <= 0xffff_ffffu32, stride <= 0xffff_ffffu32;
}

impl DoubleBuffer {
    /// The buffer's words.
    pub closed spec fn pixels(&self) -> Seq<u32> {
        self.back@
    }

    /// Visible width.
    pub closed spec fn w(&self) -> u32 {
        self.width
    }

    /// Visible height.
    pub closed spec fn h(&self) -> u32 {
        self.height
    }

    /// Row length in pixels.
    pub closed spec fn s(&self) -> u32 {
        self.stride
    }

    /// The storage holds the whole buffer, whose size fits 32 bits.
    pub closed spec fn wf(&self) -> bool {
        self.stride * self.height <= u32::MAX && self.back@.len() >= self.stride * self.height
    }

    /// A back buffer for `fb` in `storage`, cleared to 0;
    /// `StorageTooSmall` when `storage` has fewer than `stride * height`
    /// words.
    pub fn new(fb: &Framebuffer, storage: Vec<u32>) -> (r: Result<DoubleBuffer, BufferError>)
        requires
            fb.stride * fb.height <= u32::MAX,
        ensures
            match r {
                Err(e) => storage@.len() < fb.stride * fb.height
                    && e == (BufferError::StorageTooSmall { needed: (fb.stride * fb.height) as usize, got: storage@.len() as usize }),
                Ok(d) => storage@.len() >= fb.stride * fb.height && d.wf() && d.w() == fb.width
                    && d.h() == fb.height && d.s() == fb.stride
                    && d.pixels() == Seq::new(storage@.len(), |i: int| 0u32),
            },
    {
        let needed = (fb.stride * fb.height) as usize;
        if storage.len() < needed {
            return Err(BufferError::StorageTooSmall { needed, got: storage.len() });
        }
        let ghost len0 = storage@.len();
        let mut storage = storage;
        let mut i: usize = 0;
        while i < storage.len()
            invariant
                i <= storage@.len(),
                storage@.len() == len0,
                forall|k: int| 0 <= k < i ==> storage@[k] == 0u32,
            decreases storage.len() - i,
        {
            storage.set(i, 0);
            i = i + 1;
        }
        assert(storage@ =~= Seq::new(storage@.len(), |i: int| 0u32));
        Ok(DoubleBuffer { back: storage, width: fb.width, height: fb.height, stride: fb.stride })
    }

    /// Sets pixel (`x`, `y`) when it is visible (and inside the storage).
    pub fn set_pixel(&mut self, x: u32, y: u32, color: u32)
        requires
            old(self).wf(),
        ensures
            final(self).wf(),
            final(self).w() == old(self).w() && final(self).h() == old(self).h() && final(self).s() == old(self).s(),
            ({
                let idx = cell(old(self).s(), y as int, x as int);
                if x < old(self).w() && y < old(self).h() && idx < old(self).pixels().len() {
                    final(self).pixels() == old(self).pixels().update(idx, color)
                } else {
                    final(self).pixels() == old(self).pixels()
                }
            }),
    {
        if x < self.width && y < self.height {
            proof { lemma_cell_fits(y, self.stride, x); }
            let idx: u64 = (y as u64) * (self.stride as u64) + (x as u64);
            if idx < self.back.len() as u64 {
                self.back.set(idx as usize, color);
            }
        }
    }

    /// Fills the whole buffer (`stride * height` words) with `color`.
    pub fn clear(&mut self, color: u32)
        requires
            old(self).wf(),
        ensures
            final(self).wf(),
            final(self).w() == old(self).w() && final(self).h() == old(self).h() && final(self).s() == old(self).s(),
            final(self).pixels().len() == old(self).pixels().len(),
            forall|i: int| 0 <= i < old(self).pixels().len() ==> #[trigger] final(self).pixels()[i] == (
                if i < old(self).s() * old(self).h() { color } else { old(self).pixels()[i] }),
    {
        let len = (self.stride * self.height) as usize;
        let mut i: usize = 0;
        while i < len
            invariant
                len == self.stride * self.height,
                len <= self.back@.len(),
                self.back@.len() == old(self).back@.len(),
                self.stride == old(self).stride && self.height == old(self).height && self.width == old(self).width,
                i <= len,
                forall|k: int| 0 <= k < old(self).back@.len() ==> #[trigger] self.back@[k] == (
                    if k < i { color } else { old(self).back@[k] }),
            decreases len - i,
        {
            self.back.set(i, color);
            i = i + 1;
        }
    }

    /// Fills the visible part of the rectangle at (`x`, `y`) of size `w` x
    /// `h` with `color`.
    pub fn fill_rect(&mut self, x: u32, y: u32, w: u32, h: u32, color: u32)
        requires
            old(self).wf(),
            x + w <= u32::MAX,
            y + h <= u32::MAX,
        ensures
            final(self).wf(),
            final(self).w() == old(self).w() && final(self).h() == old(self).h() && final(self).s() == old(self).s(),
            final(self).pixels().len() == old(self).pixels().len(),
            forall|i: int| 0 <= i < old(self).pixels().len() ==> #[trigger] final(self).pixels()[i] == old(self).pixels()[i]
                || final(self).pixels()[i] == color,
            forall|row: int, col: int| y <= row < y + h && row < old(self).h() && x <= col < x + w && col < old(self).w()
                && cell(old(self).s(), row, col) < old(self).pixels().len()
                ==> #[trigger] final(self).pixels()[cell(old(self).s(), row, col)] == color,
            forall|i: int| 0 <= i < old(self).pixels().len() ==> #[trigger] final(self).pixels()[i] == if rect_area(
                old(self).s(), old(self).w(), old(self).h(), x as int, y as int, w as int, h as int, i) {
                color
            } else {
                old(self).pixels()[i]
            },
    {
        let x_end = if x + w < self.width { x + w } else { self.width };
        let y_end = if y + h < self.height { y + h } else { self.height };
        let mut row = y;
        while row < y_end
            invariant
                y <= row,
                row == y || row <= y_end,
                y_end <= self.height,
                x_end <= self.width,
                x_end == (if x + w < old(self).width { x + w } else { old(self).width as int }),
                y_end == (if y + h < old(self).height { y + h } else { old(self).height as int }),
                self.back@.len() == old(self).back@.len(),
                self.stride == old(self).stride && self.height == old(self).height && self.width == old(self).width,
                forall|i: int| 0 <= i < old(self).back@.len() ==> #[trigger] self.back@[i] == old(self).back@[i]
                    || self.back@[i] == color,
                forall|i: int| 0 <= i < old(self).back@.len() ==> #[trigger] self.back@[i] == old(self).back@[i]
                    || in_area(self.stride, x as int, y as int, x_end as int, row as int, i),
                forall|r: int, c: int| y <= r < row && x <= c < x_end && cell(self.stride, r, c) < self.back@.len()
                    ==> #[trigger] self.back@[cell(self.stride, r, c)] == color,
            decreases y_end - row,
        {
            let mut col = x;
            while col < x_end
                invariant
                    y <= row < y_end,
                    x <= col,
                    col == x || col <= x_end,
                    x_end <= self.width,
                    self.back@.len() == old(self).back@.len(),
                    self.stride == old(self).stride && self.height == old(self).height && self.width == old(self).width,
                    forall|i: int| 0 <= i < old(self).back@.len() ==> #[trigger] self.back@[i] == old(self).back@[i]
                        || self.back@[i] == color,
                    forall|r: int, c: int| y <= r < row && x <= c < x_end && cell(self.stride, r, c) < self.back@.len()
                        ==> #[trigger] self.back@[cell(self.stride, r, c)] == color,
                    forall|c: int| x <= c < col && cell(self.stride, row as int, c) < self.back@.len()
                        ==> #[trigger] self.back@[cell(self.stride, row as int, c)] == color,
                    forall|i: int| 0 <= i < old(self).back@.len() ==> #[trigger] self.back@[i] == old(self).back@[i]
                        || in_area(self.stride, x as int, y as int, x_end as int, row as int, i)
                        || in_area(self.stride, x as int, row as int, col as int, row + 1, i),
                decreases x_end - col,
            {
                proof { lemma_cell_fits(row, self.stride, col); }
                let idx: u64 = (row as u64) * (self.stride as u64) + (col as u64);
                let ghost before = self.back@;
                if idx < self.back.len() as u64 {
                    self.back.set(idx as usize, color);
                }
                proof {
                    assert forall|i: int| 0 <= i < old(self).back@.len() implies #[trigger] self.back@[i] == old(self).back@[i]
                        || in_area(self.stride, x as int, y as int, x_end as int, row as int, i)
                        || in_area(self.stride, x as int, row as int, col + 1, row + 1, i) by {
                        if i == idx as int {
                            assert(cell(self.stride, row as int, col as int) == i);
                        } else {
                            assert(self.back@[i] == before[i]);
                            if in_area(self.stride, x as int, row as int, col as int, row + 1, i) {
                                let (r, c) = choose|r: int, c: int| row <= r < row + 1 && x <= c < col
                                    && #[trigger] cell(self.stride, r, c) == i;
                                assert(cell(self.stride, r, c) == i);
                            }
                        }
                    }
                }
                col = col + 1;
            }
            proof {
                assert forall|i: int| 0 <= i < old(self).back@.len() implies #[trigger] self.back@[i] == old(self).back@[i]
                    || in_area(self.stride, x as int, y as int, x_end as int, row + 1, i) by {
                    if in_area(self.stride, x as int, y as int, x_end as int, row as int, i) {
                        let (r, c) = choose|r: int, c: int| y <= r < row && x <= c < x_end
                            && #[trigger] cell(self.stride, r, c) == i;
                        assert(cell(self.stride, r, c) == i);
                    } else if in_area(self.stride, x as int, row as int, col as int, row + 1, i) {
                        let (r, c) = choose|r: int, c: int| row <= r < row + 1 && x <= c < col
                            && #[trigger] cell(self.stride, r, c) == i;
                        assert(cell(self.stride, r, c) == i);
                    }
                }
            }
            row = row + 1;
        }
        proof {
            assert forall|i: int| 0 <= i < old(self).back@.len() implies #[trigger] self.back@[i] == if rect_area(
                old(self).stride, old(self).width, old(self).height, x as int, y as int, w as int, h as int, i) {
                color
            } else {
                old(self).back@[i]
            } by {
                if in_area(self.stride, x as int, y as int, x_end as int, row as int, i) {
                    let (r, c) = choose|r: int, c: int| y <= r < row && x <= c < x_end
                        && #[trigger] cell(self.stride, r, c) == i;
                    assert(cell(self.stride, r, c) == i);
                }
                if in_area(self.stride, x as int, y as int, x_end as int, y_end as int, i) {
                    let (r, c) = choose|r: int, c: int| y <= r < y_end && x <= c < x_end
                        && #[trigger] cell(self.stride, r, c) == i;
                    assert(self.back@[cell(self.stride, r, c)] == color);
                }
            }
        }
    }

    /// A horizontal line of `len` pixels (see `fill_rect`).
    pub fn hline(&mut self, x: u32, y: u32, len: u32, color: u32)
        requires
            old(self).wf(),
            x + len <= u32::MAX,
            y + 1 <= u32::MAX,
        ensures
            final(self).wf(),
            final(self).w() == old(self).w() && final(self).h() == old(self).h() && final(self).s() == old(self).s(),
            final(self).pixels().len() == old(self).pixels().len(),
            forall|col: int| y < old(self).h() && x <= col < x + len && col < old(self).w()
                && cell(old(self).s(), y as int, col) < old(self).pixels().len()
                ==> #[trigger] final(self).pixels()[cell(old(self).s(), y as int, col)] == color,
    {
        self.fill_rect(x, y, len, 1, color);
    }

    /// A vertical line of `len` pixels, clipped to the visible area.
    pub fn vline(&mut self, x: u32, y: u32, len: u32, color: u32)
        requires
            old(self).wf(),
            y + len <= u32::MAX,
        ensures
            final(self).wf(),
            final(self).w() == old(self).w() && final(self).h() == old(self).h() && final(self).s() == old(self).s(),
            final(self).pixels().len() == old(self).pixels().len(),
            forall|i: int| 0 <= i < old(self).pixels().len() ==> #[trigger] final(self).pixels()[i] == old(self).pixels()[i]
                || final(self).pixels()[i] == color,
            forall|row: int| y <= row < y + len && row < old(self).h() && x < old(self).w()
                && cell(old(self).s(), row, x as int) < old(self).pixels().len()
                ==> #[trigger] final(self).pixels()[cell(old(self).s(), row, x as int)] == color,
    {
        if x >= self.width {
            return;
        }
        let y_end = if y + len < self.height { y + len } else { self.height };
        let mut row = y;
        while row < y_end
            invariant
                y <= row,
                y_end == (if y + len < old(self).height { y + len } else { old(self).height as int }),
                self.back@.len() == old(self).back@.len(),
                self.stride == old(self).stride && self.height == old(self).height && self.width == old(self).width,
                forall|i: int| 0 <= i < old(self).back@.len() ==> #[trigger] self.back@[i] == old(self).back@[i]
                    || self.back@[i] == color,
                forall|r: int| y <= r < row && cell(self.stride, r, x as int) < self.back@.len()
                    ==> #[trigger] self.back@[cell(self.stride, r, x as int)] == color,
            decreases y_end - row,
        {
            proof { lemma_cell_fits(row, self.stride, x); }
            let idx: u64 = (row as u64) * (self.stride as u64) + (x as u64);
            if idx < self.back.len() as u64 {
                self.back.set(idx as usize, color);
            }
            row = row + 1;
        }
    }

    /// A rectangle outline `thickness` pixels wide: top, bottom, left and
    /// right bands (see `fill_rect`).
    pub fn draw_rect_border(&mut self, x: u32, y: u32, w: u32, h: u32, thickness: u32, color: u32)
        requires
            old(self).wf(),
            thickness <= w && thickness <= h,
            x + w <= u32::MAX,
            y + h <= u32::MAX,
        ensures
            final(self).wf(),
            final(self).w() == old(self).w() && final(self).h() == old(self).h() && final(self).s() == old(self).s(),
            final(self).pixels().len() == old(self).pixels().len(),
            forall|i: int| 0 <= i < old(self).pixels().len() ==> #[trigger] final(self).pixels()[i] == if border_area(
                old(self).s(), old(self).w(), old(self).h(), x as int, y as int, w as int, h as int, thickness as int, i) {
                color
            } else {
                old(self).pixels()[i]
            },
    {
        let t = thickness;
        let ghost p0 = self.pixels();
        self.fill_rect(x, y, w, t, color);
        let ghost p1 = self.pixels();
        self.fill_rect(x, y + h - t, w, t, color);
        let ghost p2 = self.pixels();
        self.fill_rect(x, y, t, h, color);
        let ghost p3 = self.pixels();
        self.fill_rect(x + w - t, y, t, h, color);
        proof {
            assert forall|i: int| 0 <= i < p0.len() implies #[trigger] self.pixels()[i] == if border_area(
                old(self).s(), old(self).w(), old(self).h(), x as int, y as int, w as int, h as int, t as int, i) {
                color
            } else {
                p0[i]
            } by {
                assert(self.pixels()[i] == p3[i] || self.pixels()[i] == color);
                assert(p3[i] == p2[i] || p3[i] == color);
                assert(p2[i] == p1[i] || p2[i] == color);
                assert(p1[i] == p0[i] || p1[i] == color);
            }
        }
    }

    /// Copies `src` over the start of the buffer (at most `stride * height`
    /// words).
    pub fn blit_buf(&mut self, src: &[u32])
        requires
            old(self).wf(),
        ensures
            final(self).wf(),
            final(self).w() == old(self).w() && final(self).h() == old(self).h() && final(self).s() == old(self).s(),
            final(self).pixels().len() == old(self).pixels().len(),
            forall|i: int| 0 <= i < old(self).pixels().len() ==> #[trigger] final(self).pixels()[i] == (
                if i < old(self).s() * old(self).h() && i < src@.len() { src@[i] } else { old(self).pixels()[i] }),
    {
        let total = (self.stride * self.height) as usize;
        let len = if total < src.len() { total } else { src.len() };
        let mut i: usize = 0;
        while i < len
            invariant
                len <= total,
                total == self.stride * self.height,
                len <= src@.len(),
                total <= self.back@.len(),
                self.back@.len() == old(self).back@.len(),
                self.stride == old(self).stride && self.height == old(self).height && self.width == old(self).width,
                i <= len,
                forall|k: int| 0 <= k < old(self).back@.len() ==> #[trigger] self.back@[k] == (
                    if k < i { src@[k] } else { old(self).back@[k] }),
            decreases len - i,
        {
            self.back.set(i, src[i]);
            i = i + 1;
        }
    }

    /// Copies the buffer to the framebuffer's memory.
    pub fn flip<M: FramebufferMemory>(&self, fb: &mut Framebuffer, mem: &mut M)
        requires
            self.wf(),
            old(fb).stride * old(fb).height <= u32::MAX,
        ensures
            *final(fb) == *old(fb),
            final(mem).writes() == old(mem).writes() + fill_writes(
                clip(self.s() * self.h(), old(fb).stride * old(fb).height),
                |i: int| self.pixels()[i],
            ),
    {
        let len = (self.stride * self.height) as usize;
        let src = &self.back.as_slice()[0..len];
        fb.blit_full(mem, src);
        proof {
            let n = clip(self.s() * self.h(), old(fb).stride * old(fb).height);
            assert(fill_writes(n, |i: int| src@[i]) =~= fill_writes(n, |i: int| self.pixels()[i]));
        }
    }

    /// Visible width and height.
    pub fn dimensions(&self) -> (d: (u32, u32))
        ensures
            d == (self.w(), self.h()),
    {
        (self.width, self.height)
    }

    /// The buffer's first `stride * height` words.
    pub fn back_buffer(&self) -> (s: &[u32])
        requires
            self.wf(),
        ensures
            s@ == self.pixels().subrange(0, self.s() * self.h()),
    {
        let len = (self.stride * self.height) as usize;
        &self.back.as_slice()[0..len]
    }
}

} // verus!
