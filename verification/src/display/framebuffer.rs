//! A linear 32-bit framebuffer: geometry, pixel writes through the memory
//! that backs it, and color packing.
use vstd::prelude::*;

verus! {

/// Pixel layouts.
#[derive(Clone, Copy, Debug, PartialEq, Eq, Structural)]
pub enum PixelFormat {
    Argb8888,
    Rgba8888,
    Rgb888,
}

/// The memory behind a framebuffer, written one 32-bit pixel at a time.
pub trait FramebufferMemory {
    /// The pixel words written, in order: index and color. Every
    /// implementation in this library keeps it; the empty default stands
    /// only for implementations made outside it, which verification does
    /// not see.
    closed spec fn writes(&self) -> Seq<(usize, u32)> {
        Seq::empty()
    }

    /// Writes pixel word `index` (from the framebuffer's start).
    fn write_pixel_word(&mut self, index: usize, color: u32)
        ensures
            final(self).writes() == old(self).writes().push((index, color));
}

/// The writes of words `0..n` with the colors `f` gives them, in order.
pub open spec fn fill_writes(n: int, f: spec_fn(int) -> u32) -> Seq<(usize, u32)> {
    Seq::new(n as nat, |i: int| (i as usize, f(i)))
}

/// A framebuffer at address `base`: `width` x `height` visible pixels in
/// rows of `stride` pixels.
pub struct Framebuffer {
    pub base: usize,
    pub width: u32,
    pub height: u32,
    pub stride: u32,
    pub format: PixelFormat,
}

impl Framebuffer {
    /// The framebuffer at `addr` with the given geometry and format.
    pub fn new(addr: usize, width: u32, height: u32, stride: u32, format: PixelFormat) -> (f: Framebuffer)
        ensures
            f.base == addr && f.width == width && f.height == height && f.stride == stride && f.format == format,
    {
        Framebuffer { base: addr, width, height, stride, format }
    }

    /// Writes pixel (`x`, `y`) (word `y * stride + x`) when it is visible.
    pub fn write_pixel<M: FramebufferMemory>(&mut self, mem: &mut M, x: u32, y: u32, color: u32)
        requires
            old(self).stride * old(self).height <= u32::MAX,
            old(self).width <= old(self).stride,
        ensures
            *final(self) == *old(self),
            x < old(self).width && y < old(self).height ==> final(mem).writes() == old(mem).writes().push(
                ((y * old(self).stride + x) as usize, color)),
            !(x < old(self).width && y < old(self).height) ==> final(mem).writes() == old(mem).writes(),
    {
        if x < self.width && y < self.height {
            assert(y * self.stride + x < self.stride * self.height) by (nonlinear_arith)
                requires y < self.height, x < self.width, self.width <= self.stride;
            let idx = (y * self.stride + x) as usize;
            mem.write_pixel_word(idx, color);
        }
    }

    /// Copies `src` to the screen word by word, at most `stride * height`
    /// words.
    pub fn blit_full<M: FramebufferMemory>(&mut self, mem: &mut M, src: &[u32])
        requires
            old(self).stride * old(self).height <= u32::MAX,
        ensures
            *final(self) == *old(self),
            final(mem).writes() == old(mem).writes() + fill_writes(
                if src@.len() < old(self).stride * old(self).height { src@.len() as int } else { old(self).stride * old(self).height },
                |i: int| src@[i],
            ),
    {
        let total = (self.stride * self.height) as usize;
        let len = if src.len() < total { src.len() } else { total };
        let mut i: usize = 0;
        while i < len
            invariant
                i <= len <= src@.len(),
                len == (if src@.len() < old(self).stride * old(self).height { src@.len() as int } else { old(self).stride
                    * old(self).height }),
                *self == *old(self),
                mem.writes() == old(mem).writes() + fill_writes(i as int, |k: int| src@[k]),
            decreases len - i,
        {
            mem.write_pixel_word(i, src[i]);
            i = i + 1;
            assert(fill_writes(i as int, |k: int| src@[k]) =~= fill_writes(i - 1, |k: int| src@[k]).push(((i - 1) as usize, src@[i - 1])));
        }
    }

    /// Fills the whole buffer (`stride * height` words) with `color`.
    pub fn clear<M: FramebufferMemory>(&mut self, mem: &mut M, color: u32)
        requires
            old(self).stride * old(self).height <= u32::MAX,
        ensures
            *final(self) == *old(self),
            final(mem).writes() == old(mem).writes() + fill_writes(old(self).stride * old(self).height, |i: int| color),
    {
        let total = (self.stride * self.height) as usize;
        let mut i: usize = 0;
        while i < total
            invariant
                i <= total,
                total == old(self).stride * old(self).height,
                *self == *old(self),
                mem.writes() == old(mem).writes() + fill_writes(i as int, |k: int| color),
            decreases total - i,
        {
            mem.write_pixel_word(i, color);
            i = i + 1;
            assert(fill_writes(i as int, |k: int| color) =~= fill_writes(i - 1, |k: int| color).push(((i - 1) as usize, color)));
        }
    }

    /// Visible width and height.
    pub fn dimensions(&self) -> (d: (u32, u32))
        ensures
            d == (self.width, self.height),
    {
        (self.width, self.height)
    }

    /// Size of the buffer in bytes: `stride * height` words of 4 bytes.
    pub fn size_bytes(&self) -> (n: usize)
        requires
            self.stride * self.height <= u32::MAX,
            self.stride * self.height * 4 <= usize::MAX,
        ensures
            n == self.stride * self.height * 4,
    {
        (self.stride * self.height) as usize * 4
    }
}

/// An opaque color from its red, green and blue parts (ARGB).
pub open spec fn rgb_spec(r: u8, g: u8, b: u8) -> u32 {
    0xFF00_0000u32 | ((r as u32) << 16u32) | ((g as u32) << 8u32) | (b as u32)
}

/// An opaque color (see `rgb_spec`).
pub fn rgb(r: u8, g: u8, b: u8) -> (c: u32)
    ensures
        c == rgb_spec(r, g, b),
        c == 0xFF00_0000 + r * 0x1_0000 + g * 0x100 + b,
{
    let c = 0xFF00_0000u32 | ((r as u32) << 16u32) | ((g as u32) << 8u32) | (b as u32);
    assert(c == 0xFF00_0000 + r * 0x1_0000 + g * 0x100 + b) by (bit_vector)
        requires
            c == 0xFF00_0000u32 | ((r as u32) << 16u32) | ((g as u32) << 8u32) | (b as u32),
    ;
    c
}

/// A color with alpha (ARGB): `a` in the top byte, then red, green, blue.
pub fn rgba(r: u8, g: u8, b: u8, a: u8) -> (c: u32)
    ensures
        c == a * 0x100_0000 + r * 0x1_0000 + g * 0x100 + b,
{
    let c = ((a as u32) << 24u32) | ((r as u32) << 16u32) | ((g as u32) << 8u32) | (b as u32);
    assert(c == a * 0x100_0000 + r * 0x1_0000 + g * 0x100 + b) by (bit_vector)
        requires
            c == ((a as u32) << 24u32) | ((r as u32) << 16u32) | ((g as u32) << 8u32) | (b as u32),
    ;
    c
}

pub const BLACK: u32 = 0xFF00_0000;
pub const WHITE: u32 = 0xFFFF_FFFF;
pub const RED: u32 = 0xFFFF_0000;
pub const GREEN: u32 = 0xFF00_FF00;
pub const BLUE: u32 = 0xFF00_00FF;
pub const YELLOW: u32 = 0xFFFF_FF00;
pub const CYAN: u32 = 0xFF00_FFFF;
pub const MAGENTA: u32 = 0xFFFF_00FF;
pub const GRAY: u32 = 0xFF80_8080;

} // verus!
