//! Properties that relate several operations of the library, stated over
//! the models its contracts use and proved from them.
use vstd::prelude::*;
use crate::base::bus::{SubsysPrivate, first_bus, lemma_first_bus};
use crate::dma::engine::DmaDescriptor;
use crate::dma::pool::DmaPool;
use crate::driver_manager::Driver;
use crate::i2c::i2c_core::{I2cClient, client_addrs};
use crate::of::address::write_number_spec;
use crate::of::cells::{be32, be32_bytes, read_number_spec};
use crate::pmic::level_of_mv;
use crate::traits::{DeviceHandle, DeviceId, registered_ids};
use crate::wireless::chip::{chan_freq, freq_chan};
use crate::base::platform::{PlatformDevice, PlatformDriver, platform_match_spec};
use crate::clk::provider::ff_rate;
use crate::gpu::drm::drm_core::{PixelFormat, bytes_per_pixel};
use crate::i2c::algo::addr7_byte;
use crate::i2c::i2c_core::{Error, I2C_M_RD, I2C_M_REV_DIR_ADDR, retry_run};
use crate::media::v4l2::{V4l2PixFmt, bpp_spec, requested_buf};
use crate::i2c::algo::addr10_hi;

verus! {

/// Keeping the elements that satisfy `p` keeps all of `s` when all do.
proof fn lemma_filter_all<A>(s: Seq<A>, p: spec_fn(A) -> bool)
    requires
        forall|i: int| 0 <= i < s.len() ==> p(#[trigger] s[i]),
    ensures
        s.filter(p) == s,
    decreases s.len(),
{
    if s.len() == 0 {
        reveal(Seq::filter);
        assert(s.filter(p) =~= s);
    } else {
        let init = s.drop_last();
        assert forall|i: int| 0 <= i < init.len() implies p(#[trigger] init[i]) by {
            assert(init[i] == s[i]);
        }
        lemma_filter_all(init, p);
        init.lemma_filter_push(s.last(), p);
        assert(init.push(s.last()) =~= s);
    }
}

/// Reading back a number written as one cell gives its low 32 bits, and
/// as two cells the whole number.
pub proof fn law_read_number_after_write(addr: Seq<u8>, value: u64, size: usize)
    requires
        size == 1 || size == 2,
        addr.len() >= 4 * size,
    ensures
        size == 1 ==> read_number_spec(write_number_spec(addr, value, size), 1) == value % 0x1_0000_0000,
        size == 2 ==> read_number_spec(write_number_spec(addr, value, size), 2) == value,
{
    let w = write_number_spec(addr, value, size);
    let lo = (value % 0x1_0000_0000) as u32;
    let hi = (value / 0x1_0000_0000) as u32;
    lemma_be32_of_bytes(lo);
    lemma_be32_of_bytes(hi);
    if size == 1 {
        assert(w.subrange(0, 4) =~= be32_bytes(lo));
        assert(be32(w, 0) == be32(be32_bytes(lo), 0));
        reveal_with_fuel(read_number_spec, 2);
        assert(read_number_spec(w, 0) == 0);
    } else {
        assert(be32(w, 0) == be32(be32_bytes(hi), 0));
        assert(be32(w, 4) == be32(be32_bytes(lo), 0));
        reveal_with_fuel(read_number_spec, 3);
        assert(read_number_spec(w, 1) == hi as u64) by {
            assert(read_number_spec(w, 0) == 0);
        }
        assert((hi as int * 0x1_0000_0000 + lo as int) == value as int) by (nonlinear_arith)
            requires
                hi == value / 0x1_0000_0000,
                lo == value % 0x1_0000_0000,
        ;
    }
}

/// The four big-endian bytes of `x` read back as `x`.
proof fn lemma_be32_of_bytes(x: u32)
    ensures
        be32(be32_bytes(x), 0) == x,
{
    let b = be32_bytes(x);
    assert(b[0] as int * 0x100_0000 + b[1] as int * 0x1_0000 + b[2] as int * 0x100 + b[3] as int == x as int)
        by (nonlinear_arith)
        requires
            b[0] == (x / 0x100_0000) as u8,
            b[1] == ((x / 0x1_0000) % 0x100) as u8,
            b[2] == ((x / 0x100) % 0x100) as u8,
            b[3] == (x % 0x100) as u8,
    ;
}

/// The channel number of a channel's centre frequency is the channel, for
/// the 2.4 GHz channels 1 to 14 and the 5 GHz channels from 36 on.
pub proof fn law_channel_frequency_round_trip(chan: u16)
    requires
        1 <= chan <= 14 || 36 <= chan <= 12107,
    ensures
        freq_chan(chan_freq(chan) as u16) == chan,
{
    let f: u32 = chan_freq(chan);
    assert(f <= 65535);
    assert(f as u16 == f) by (bit_vector)
        requires
            f <= 65535,
    ;
}

/// The battery level never drops when the voltage rises.
pub proof fn law_battery_level_monotone(mv1: int, mv2: int)
    requires
        mv1 <= mv2,
    ensures
        level_of_mv(mv1) <= level_of_mv(mv2),
        0 <= level_of_mv(mv2) <= 100,
{
    if 3000 <= mv1 <= 4200 && 3000 <= mv2 <= 4200 {
        assert((mv1 - 3000) * 100 / 1200 <= (mv2 - 3000) * 100 / 1200) by (nonlinear_arith)
            requires
                3000 <= mv1 <= mv2,
        ;
    }
    if 3000 <= mv2 <= 4200 {
        assert(0 <= (mv2 - 3000) * 100 / 1200 <= 100) by (nonlinear_arith)
            requires
                3000 <= mv2 <= 4200,
        ;
    }
    if 3000 <= mv1 <= 4200 {
        assert((mv1 - 3000) * 100 / 1200 <= 100) by (nonlinear_arith)
            requires
                3000 <= mv1 <= 4200,
        ;
    }
}

/// Dropping a reference (`put_device`) undoes taking one (`get_device`):
/// the count is back where it was.
pub proof fn law_put_device_undoes_get_device(c0: nat, c1: nat, c2: nat)
    requires
        c0 < usize::MAX,
        c1 == c0 + 1,
        c2 == (if c1 == 0 { 0 } else { c1 - 1 }),
    ensures
        c2 == c0,
{
}

/// Dropping a user of the DMA engine (`dmaengine_put`) undoes adding one
/// (`dmaengine_get`).
pub proof fn law_dmaengine_put_undoes_get(r0: usize, r1: usize, r2: usize)
    requires
        r0 < usize::MAX,
        r1 == (if r0 == usize::MAX { 0 } else { r0 + 1 }),
        r2 == r1 - 1,
    ensures
        r2 == r0,
{
}

/// A block given back to a pool (`free`) is the next one handed out
/// (`alloc_block`), with the same bus address, and the free list is then as
/// before.
pub proof fn law_pool_hands_out_freed_block(
    p0: DmaPool,
    p1: DmaPool,
    p2: DmaPool,
    vaddr: u64,
    dma: u64,
    got: u64,
    handle: u64,
)
    requires
        vaddr != 0,
        p1.free@ == p0.free@.push((vaddr, dma)),
        p1.free@.len() > 0 ==> got == p1.free@.last().0 && handle == p1.free@.last().1
            && p2.free@ == p1.free@.drop_last(),
    ensures
        got == vaddr,
        handle == dma,
        p2.free@ == p0.free@,
{
    assert(p0.free@.push((vaddr, dma)).drop_last() =~= p0.free@);
}

/// A descriptor queue is first in, first out: whatever it held, the
/// descriptors enqueued after it come out after it, in the order they
/// went in (`enqueue` pushes, `dequeue` takes the first).
pub proof fn law_descriptor_queue_fifo(q0: Seq<DmaDescriptor>, a: DmaDescriptor, b: DmaDescriptor)
    ensures
        q0.push(a).push(b).subrange(0, q0.len() as int) =~= q0,
        q0.push(a).push(b)[q0.len() as int] == a,
        q0.push(a).push(b)[q0.len() as int + 1] == b,
        q0.push(a).push(b).len() == q0.len() + 2,
{
}

/// After registering a device under a free identity, looking that
/// identity up finds exactly the device registered.
pub proof fn law_lookup_finds_registered(e0: Seq<(DeviceId, DeviceHandle)>, id: DeviceId, h: DeviceHandle, found: DeviceHandle)
    requires
        !registered_ids(e0).contains(id),
        e0.push((id, h)).contains((id, found)),
    ensures
        found == h,
{
    let e1 = e0.push((id, h));
    let k = choose|k: int| 0 <= k < e1.len() && e1[k] == (id, found);
    if k < e0.len() {
        assert(e1[k] == e0[k]);
        assert(registered_ids(e0)[k] == id);
    }
}

/// Unregistering an identity right after registering it (when it was
/// free) leaves the registry as it was.
pub proof fn law_unregister_undoes_register(e0: Seq<(DeviceId, DeviceHandle)>, id: DeviceId, h: DeviceHandle, k: int)
    requires
        !registered_ids(e0).contains(id),
        0 <= k < e0.len() + 1,
        e0.push((id, h))[k].0 == id,
    ensures
        e0.push((id, h)).remove(k) == e0,
{
    let e1 = e0.push((id, h));
    if k < e0.len() {
        assert(e1[k] == e0[k]);
        assert(registered_ids(e0)[k] == id);
    }
    assert(e1.remove(k) =~= e0);
}

/// Detaching the clients at an address right after attaching a client
/// there (when the address was free) leaves the adapter's clients as they
/// were.
pub proof fn law_remove_client_undoes_add(cs0: Seq<I2cClient>, c: I2cClient)
    requires
        !client_addrs(cs0).contains(c.addr),
    ensures
        cs0.push(c).filter(|x: I2cClient| x.addr != c.addr) == cs0,
{
    let p = |x: I2cClient| x.addr != c.addr;
    assert forall|i: int| 0 <= i < cs0.len() implies p(#[trigger] cs0[i]) by {
        if cs0[i].addr == c.addr {
            assert(client_addrs(cs0)[i] == c.addr);
        }
    }
    lemma_filter_all(cs0, p);
    cs0.lemma_filter_push(c, p);
}

/// Unregistering a driver by name right after registering it (when no
/// other driver had that name) leaves the driver list as it was.
pub proof fn law_unregister_driver_undoes_register(ds0: Seq<Driver>, d: Driver)
    requires
        forall|i: int| 0 <= i < ds0.len() ==> (#[trigger] ds0[i]).name@ != d.name@,
    ensures
        ds0.push(d).filter(|x: Driver| x.name@ != d.name@) == ds0,
{
    let p = |x: Driver| x.name@ != d.name@;
    assert forall|i: int| 0 <= i < ds0.len() implies p(#[trigger] ds0[i]) by {}
    lemma_filter_all(ds0, p);
    ds0.lemma_filter_push(d, p);
}

/// Unregistering a bus by name right after registering it (when the name
/// was free) leaves the bus list as it was.
pub proof fn law_bus_unregister_undoes_register(s0: Seq<SubsysPrivate>, s1: Seq<SubsysPrivate>, name: Seq<char>)
    requires
        first_bus(s0, name, 0) is None,
        s1.len() == s0.len() + 1,
        s1.subrange(0, s0.len() as int) == s0,
        s1[s0.len() as int].bus.name@ == name,
    ensures
        first_bus(s1, name, 0) == Some(s0.len() as int),
        s1.remove(s0.len() as int) == s0,
{
    lemma_first_bus_absent(s0, name, 0);
    lemma_first_bus_prefix(s0, s1, name, 0);
    assert(s1.remove(s0.len() as int) =~= s0);
}

/// With no bus of that name from `i` on, none carries it there.
proof fn lemma_first_bus_absent(s: Seq<SubsysPrivate>, name: Seq<char>, i: int)
    requires
        0 <= i,
        first_bus(s, name, i) is None,
    ensures
        forall|j: int| i <= j < s.len() ==> (#[trigger] s[j]).bus.name@ != name,
    decreases s.len() - i,
{
    if i < s.len() {
        lemma_first_bus_absent(s, name, i + 1);
    }
}

/// A bus list extended by one bus named `name`, none of the earlier ones
/// so named, finds it at the end.
proof fn lemma_first_bus_prefix(s0: Seq<SubsysPrivate>, s1: Seq<SubsysPrivate>, name: Seq<char>, i: int)
    requires
        0 <= i <= s0.len(),
        s1.len() == s0.len() + 1,
        s1.subrange(0, s0.len() as int) == s0,
        s1[s0.len() as int].bus.name@ == name,
        forall|j: int| 0 <= j < s0.len() ==> (#[trigger] s0[j]).bus.name@ != name,
    ensures
        first_bus(s1, name, i) == Some(s0.len() as int),
    decreases s0.len() - i,
{
    if i < s0.len() {
        assert(s1[i] == s0[i]);
        lemma_first_bus_prefix(s0, s1, name, i + 1);
    }
}

/// A fixed-factor clock runs at its parent's rate times `mult` over `div`
/// (when `div` is not 0 and the product fits in 64 bits): doubling with
/// `mult = 2, div = 1`, and never slower for a larger multiplier.
pub proof fn law_fixed_factor_rate(parent_rate: u64, mult: u32, mult2: u32, div: u32)
    requires
        div != 0,
        mult <= mult2,
        parent_rate * mult2 <= u64::MAX,
    ensures
        ff_rate(parent_rate, mult, div) == (parent_rate * mult) / (div as int),
        div == 1 ==> ff_rate(parent_rate, mult, div) == parent_rate * mult,
        ff_rate(parent_rate, mult, div) <= ff_rate(parent_rate, mult2, div),
{
    assert(parent_rate * mult <= parent_rate * mult2) by (nonlinear_arith)
        requires mult <= mult2;
    assert(0 <= parent_rate * mult) by (nonlinear_arith);
    vstd::arithmetic::div_mod::lemma_small_mod((parent_rate * mult) as nat, 0x1_0000_0000_0000_0000nat);
    vstd::arithmetic::div_mod::lemma_small_mod((parent_rate * mult2) as nat, 0x1_0000_0000_0000_0000nat);
    assert((parent_rate as nat * mult as u64 as nat) == parent_rate * mult);
    assert((parent_rate as nat * mult2 as u64 as nat) == parent_rate * mult2);
    vstd::arithmetic::div_mod::lemma_div_is_ordered((parent_rate * mult) as int, (parent_rate * mult2) as int,
        div as int);
}

/// Bits of one pixel of a framebuffer format, from its components: red,
/// green and blue of 5, 6 and 5 bits for RGB565; a luma and an alternating
/// chroma byte for YUYV; four bytes (alpha or padding, red, green, blue)
/// for the 32-bit formats.
pub open spec fn fb_pixel_bits(f: PixelFormat) -> nat {
    match f {
        PixelFormat::Rgb565 => 5 + 6 + 5,
        PixelFormat::Yuyv => 8 + 8,
        PixelFormat::Xrgb8888 => 8 + 8 + 8 + 8,
        PixelFormat::Argb8888 => 8 + 8 + 8 + 8,
    }
}

/// A framebuffer row holds exactly its pixels: the bytes per pixel that
/// `alloc_fb` sizes rows with are the format's bit depth over 8, so a row
/// of `w` pixels (its pitch) has `w` times that many bits, and an RGB565
/// row is half as long as an ARGB8888 one.
pub proof fn law_fb_pitch_holds_pixels(w: u16, fmt: PixelFormat)
    ensures
        8 * bytes_per_pixel(fmt) == fb_pixel_bits(fmt),
        8 * (w * bytes_per_pixel(fmt)) == w * fb_pixel_bits(fmt),
        2 * (w * bytes_per_pixel(PixelFormat::Rgb565)) == w * bytes_per_pixel(PixelFormat::Argb8888),
{
    assert(8 * (w * bytes_per_pixel(fmt)) == w * (8 * bytes_per_pixel(fmt))) by (nonlinear_arith);
    assert(2 * (w * 2) == w * 4) by (nonlinear_arith);
}

/// Bits of one sample of a capture format's first plane: 16 for the packed
/// 4:2:2 formats (luma and alternating chroma), 5 + 6 + 5 for RGB565, 24
/// and 32 for the RGB formats, 8 for the luma plane of the planar YUV
/// formats and for compressed streams, 10 and 12 for the raw Bayer
/// formats.
pub open spec fn capture_sample_bits(f: V4l2PixFmt) -> nat {
    match f {
        V4l2PixFmt::Yuyv | V4l2PixFmt::Yvyu => 8 + 8,
        V4l2PixFmt::Nv12 | V4l2PixFmt::Nv21 | V4l2PixFmt::Yuv420 => 8,
        V4l2PixFmt::Rgb565 => 5 + 6 + 5,
        V4l2PixFmt::Rgb24 | V4l2PixFmt::Bgr24 => 8 + 8 + 8,
        V4l2PixFmt::Argb32 => 8 + 8 + 8 + 8,
        V4l2PixFmt::Raw10 => 10,
        V4l2PixFmt::Raw12 => 12,
        V4l2PixFmt::Jpeg | V4l2PixFmt::H264 | V4l2PixFmt::Hevc => 8,
    }
}

/// The bytes per pixel a capture line is sized with are the fewest whole
/// bytes that hold one sample of the format, so a line of `w` pixels is
/// `w` times that: 2 bytes (1280 for 640 pixels) for RGB565.
pub proof fn law_capture_bpp_holds_sample(f: V4l2PixFmt)
    ensures
        8 * bpp_spec(f) >= capture_sample_bits(f),
        8 * (bpp_spec(f) - 1) < capture_sample_bits(f),
{
}

/// The address byte of a 7-bit message carries the address in its upper
/// seven bits and the direction in its lowest: set for a read, inverted
/// when the message asks for a reversed direction bit.
pub proof fn law_addr7_byte(addr: u16, flags: u16)
    requires
        addr < 128,
    ensures
        addr7_byte(addr, flags) >> 1u8 == addr,
        (addr7_byte(addr, flags) & 1u8 == 1u8) == ((flags & I2C_M_RD != 0) != (flags & I2C_M_REV_DIR_ADDR != 0)),
{
    let rd: u16 = if flags & I2C_M_RD != 0 { 1u16 } else { 0u16 };
    let b = ((addr << 1u16) | rd) as u8;
    assert((b >> 1u8) as u16 == addr && (b & 1u8 == 1u8) == (rd == 1)) by (bit_vector)
        requires
            addr < 128,
            rd == 0 || rd == 1,
            b == ((addr << 1u16) | rd) as u8;
    assert(((b ^ 1u8) >> 1u8) as u16 == addr && ((b ^ 1u8) & 1u8 == 1u8) == (rd == 0)) by (bit_vector)
        requires
            addr < 128,
            rd == 0 || rd == 1,
            b == ((addr << 1u16) | rd) as u8;
}

/// A driver override decides alone: for a device with one, a driver
/// matches exactly when its name is the override, whatever the device's
/// name and the driver's id table.
pub proof fn law_override_decides_match(pdev: &PlatformDevice, pdrv: &PlatformDriver)
    requires
        pdev.driver_override is Some,
    ensures
        platform_match_spec(pdev, pdrv) <==> pdev.driver_override.unwrap()@ == pdrv.driver.name@,
{
}

/// The four characters a format's code is made of, lowest byte first.
pub open spec fn fourcc_name(f: V4l2PixFmt) -> (char, char, char, char) {
    match f {
        V4l2PixFmt::Yuyv => ('Y', 'U', 'Y', 'V'),
        V4l2PixFmt::Yvyu => ('Y', 'V', 'Y', 'U'),
        V4l2PixFmt::Nv12 => ('N', 'V', '1', '2'),
        V4l2PixFmt::Nv21 => ('N', 'V', '2', '1'),
        V4l2PixFmt::Yuv420 => ('I', '4', '2', '0'),
        V4l2PixFmt::Rgb565 => ('R', 'G', 'B', 'P'),
        V4l2PixFmt::Rgb24 => ('3', 'R', 'B', 'G'),
        V4l2PixFmt::Bgr24 => ('B', 'G', '3', 'R'),
        V4l2PixFmt::Argb32 => ('G', 'R', 'A', 'B'),
        V4l2PixFmt::Jpeg => ('J', 'P', 'E', 'G'),
        V4l2PixFmt::H264 => ('H', '2', '6', '4'),
        V4l2PixFmt::Hevc => ('H', 'E', 'V', 'C'),
        V4l2PixFmt::Raw10 => ('R', 'G', '1', '0'),
        V4l2PixFmt::Raw12 => ('R', 'G', '1', '2'),
    }
}

/// A format's code is its four-character name packed little-endian: the
/// first character in the lowest byte.
pub proof fn law_fourcc_packs_name(f: V4l2PixFmt)
    ensures
        f.fourcc_spec() == (fourcc_name(f).0 as u32) + 0x100 * (fourcc_name(f).1 as u32) + 0x1_0000 * (fourcc_name(
            f).2 as u32) + 0x100_0000 * (fourcc_name(f).3 as u32),
{
}

/// The buffers of a request lie back to back without overlapping: buffer
/// `j` starts where buffer `i` starts plus `j - i` whole buffers, at or
/// after the end of buffer `i` for `i < j`.
pub proof fn law_request_buffers_disjoint(i: int, j: int, base: u64, size: u32)
    requires
        0 <= i < j < 8,
        base + j * size <= u64::MAX,
    ensures
        requested_buf(j, base, size).phys_addr == requested_buf(i, base, size).phys_addr + (j - i) * size,
        requested_buf(i, base, size).phys_addr + requested_buf(i, base, size).length <= requested_buf(j, base,
            size).phys_addr,
        requested_buf(i, base, size).index == i && requested_buf(j, base, size).index == j,
{
    assert(0 <= i * size <= j * size) by (nonlinear_arith)
        requires 0 <= i < j, size >= 0;
    assert(j * size - i * size == (j - i) * size) by (nonlinear_arith);
    assert((j - i) * size >= size) by (nonlinear_arith)
        requires j - i >= 1, size >= 0;
}

/// Without a driver override or an id table, a driver matches a device
/// exactly when their names agree.
pub proof fn law_name_match(pdev: &PlatformDevice, pdrv: &PlatformDriver)
    requires
        pdev.driver_override is None,
        pdrv.id_table is None,
    ensures
        platform_match_spec(pdev, pdrv) <==> pdev.name@ == pdrv.driver.name@,
{
}

/// The first address byte of a 10-bit message is the reserved pattern
/// 11110 followed by address bits 9 and 8 and a write bit.
pub proof fn law_addr10_hi(addr: u16)
    requires
        addr < 1024,
    ensures
        addr10_hi(addr) >> 3u8 == 0x1eu8,
        (addr10_hi(addr) >> 1u8) & 3u8 == (addr >> 8u16) as u8,
        addr10_hi(addr) & 1u8 == 0,
{
    assert(((0xf0u8 | (((addr >> 7u16) & 0x06u16) as u8)) >> 3u8 == 0x1eu8)
        && (((0xf0u8 | (((addr >> 7u16) & 0x06u16) as u8)) >> 1u8) & 3u8 == (addr >> 8u16) as u8)
        && ((0xf0u8 | (((addr >> 7u16) & 0x06u16) as u8)) & 1u8 == 0)) by (bit_vector)
        requires addr < 1024;
}

/// A transfer stops at its first success: a successful attempt is the last
/// one and its count is the result; when every attempt failed there were
/// exactly `retries + 1` of them and the last error is the result.
pub proof fn law_transfer_stops_at_success(run: Seq<Result<usize, Error>>, retries: u32, r: Result<usize, Error>, k: int)
    requires
        retry_run(run, retries, r),
        0 <= k < run.len(),
        run[k] is Ok,
    ensures
        k == run.len() - 1,
        r == run[k],
{
}

/// A transfer whose attempts all failed made one more attempt than it may
/// retry.
pub proof fn law_transfer_gives_up_after_retries(run: Seq<Result<usize, Error>>, retries: u32, r: Result<usize, Error>)
    requires
        retry_run(run, retries, r),
        r is Err,
    ensures
        run.len() == retries + 1,
        forall|i: int| 0 <= i < run.len() ==> (#[trigger] run[i]) is Err,
{
}

} // verus!
