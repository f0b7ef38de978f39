//! Standard clock providers: fixed rate, fixed factor, gate, divider, mux.
use vstd::prelude::*;
use crate::clk::framework::{
    ClkCore, ClkError, ClkHardware, ClkId, ClkOps, ClkRegistry, NO_PARENT, clk_register, name_field, parent_depth_ok,
    parent_ok, register_spec, clk_no_parent,
};
use crate::clk::clk_flags::IS_GATABLE;
use crate::clk::mmio::{IoEvent, RegisterIo, extends, rmw_events, rmw_reg, rmw_spec, since};
use vstd::string::StringSliceAdditionalSpecFns;
use vstd::wrapping::u64_specs;

verus! {

/// Maximum supported divider table size.
pub const MAX_DIV_TABLE: usize = 32;

/// Maximum parents a mux clock can have.
pub const MAX_MUX_PARENTS: usize = 8;

/// Divider type.
#[derive(Clone, Copy, Debug, PartialEq, Eq, Structural)]
pub enum DividerType {
    /// Linear: register value N gives divisor N+1.
    Linear,
    /// Power-of-two: register value N gives divisor 2^N.
    PowerOfTwo,
    /// Table lookup: register value N gives the divisor paired with N.
    Table,
}

/// A gate: one enable bit in an MMIO register.
#[derive(Clone, Copy)]
pub struct GateHw {
    pub reg: u64,
    pub bit: u8,
    /// If true, writing 0 enables the clock.
    pub inverted: bool,
}

/// An integer divider held in a register bit-field.
#[derive(Clone, Copy)]
pub struct DividerHw {
    pub reg: u64,
    pub shift: u8,
    pub width: u8,
    pub div_type: DividerType,
    /// For table dividers: (register value, divisor) pairs.
    pub table: [(u8, u32); MAX_DIV_TABLE],
    pub table_len: usize,
}

/// A mux: selects one of its parents through a register bit-field.
#[derive(Clone, Copy)]
pub struct MuxHw {
    pub reg: u64,
    pub shift: u8,
    pub width: u8,
    pub parents: [ClkId; MAX_MUX_PARENTS],
    pub parent_cnt: usize,
}

impl Default for GateHw {
    /// Register 0, bit 0, normal polarity.
    fn default() -> (g: Self)
        ensures
            g.reg == 0 && g.bit == 0 && !g.inverted,
    {
        GateHw { reg: 0, bit: 0, inverted: false }
    }
}

impl Default for DividerHw {
    /// A linear divider on register 0 with an empty field and no table.
    fn default() -> (d: Self)
        ensures
            d.reg == 0 && d.shift == 0 && d.width == 0,
            d.div_type == DividerType::Linear,
            d.table_len == 0,
            forall|i: int| 0 <= i < MAX_DIV_TABLE ==> #[trigger] d.table@[i] == (0u8, 0u32),
    {
        DividerHw { reg: 0, shift: 0, width: 0, div_type: DividerType::Linear, table: [(0u8, 0u32); 32], table_len: 0 }
    }
}

impl Default for MuxHw {
    /// A mux on register 0 with an empty field and no parents.
    fn default() -> (m: Self)
        ensures
            m.reg == 0 && m.shift == 0 && m.width == 0,
            m.parent_cnt == 0,
            forall|i: int| 0 <= i < MAX_MUX_PARENTS ==> (#[trigger] m.parents@[i]).0 == NO_PARENT,
    {
        let np = clk_no_parent();
        MuxHw { reg: 0, shift: 0, width: 0, parents: [np; 8], parent_cnt: 0 }
    }
}

/// How a clock derives its rate and parent.
#[derive(Clone, Copy)]
pub enum ClkKind {
    /// No rate computation: the stored rate is the rate.
    Basic,
    /// Output = parent × mult / div.
    FixedFactor { mult: u32, div: u32 },
    /// Enable bit; rate follows the stored value.
    Gate(GateHw),
    /// Parent / divisor read from a register field.
    Divider(DividerHw),
    /// Parent chosen by a register field.
    Mux(MuxHw),
}

/// Field geometry the providers can work with without overflowing a shift.
pub open spec fn kind_ok(k: ClkKind) -> bool {
    match k {
        ClkKind::Gate(g) => g.bit < 32,
        ClkKind::Divider(d) => d.shift < 32 && d.width < 32 && d.table_len <= MAX_DIV_TABLE
            && (d.div_type == DividerType::PowerOfTwo ==> d.width <= 5),
        ClkKind::Mux(m) => m.shift < 32 && m.width < 32 && 0 < m.parent_cnt <= MAX_MUX_PARENTS,
        _ => true,
    }
}


/// Output rate of a fixed-factor clock: parent × mult / div (the product
/// wraps at 64 bits), or 0 when div is 0.
pub open spec fn ff_rate(parent_rate: u64, mult: u32, div: u32) -> u64 {
    if div == 0 {
        0
    } else {
        (u64_specs::wrapping_mul(parent_rate, mult as u64) / (div as u64)) as u64
    }
}

/// Computes [`ff_rate`].
pub fn fixed_factor_get_rate(parent_rate: u64, mult: u32, div: u32) -> (r: u64)
    ensures
        r == ff_rate(parent_rate, mult, div),
{
    if div == 0 {
        return 0;
    }
    parent_rate.wrapping_mul(mult as u64) / (div as u64)
}

/// The field mask of a `width`-bit register field.
pub open spec fn field_mask(width: u8) -> u32 {
    ((1u32 << width) - 1) as u32
}

/// The divisor of the first table entry whose register value is `val`
/// (1 when none is).
pub open spec fn table_div(t: Seq<(u8, u32)>, val: u32, i: int) -> u32
    decreases t.len() - i,
{
    if i < 0 || i >= t.len() {
        1
    } else if t[i].0 as u32 == val {
        t[i].1
    } else {
        table_div(t, val, i + 1)
    }
}

/// The divisor a divider applies when its register reads `raw`.
pub open spec fn divider_div(d: DividerHw, raw: u32) -> u32 {
    let val = (raw >> d.shift) & field_mask(d.width);
    match d.div_type {
        DividerType::Linear => (val + 1) as u32,
        DividerType::PowerOfTwo => (1u32 << val) as u32,
        DividerType::Table => table_div(d.table@.subrange(0, d.table_len as int), val, 0),
    }
}

/// parent / div, or 0 when div is 0.
pub open spec fn divided_rate(parent_rate: u64, div: u32) -> u64 {
    if div == 0 {
        0
    } else {
        (parent_rate / (div as u64)) as u64
    }
}

/// The divisor a divider uses when asked for `rate` from `parent_rate`:
/// parent / rate clamped to [1, 2^width].
pub open spec fn best_div(d: DividerHw, rate: u64, parent_rate: u64) -> u64 {
    let q = parent_rate / rate;
    let lo: u64 = if q < 1 { 1 } else { q as u64 };
    let cap: u64 = (1u64 << d.width) as u64;
    if lo > cap {
        cap
    } else {
        lo
    }
}

/// The rate a divider settles on for `rate`: the parent rate over the
/// largest divisor (up to the field's limit) that keeps it at or above
/// `rate` (0 when either rate is 0).
pub open spec fn divider_round(d: DividerHw, rate: u64, parent_rate: u64) -> u64 {
    if parent_rate == 0 || rate == 0 {
        0
    } else {
        (parent_rate / best_div(d, rate, parent_rate)) as u64
    }
}

/// Decodes the divisor from a register value.
pub fn divider_get_div(d: &DividerHw, raw: u32) -> (r: u32)
    requires
        kind_ok(ClkKind::Divider(*d)),
    ensures
        r == divider_div(*d, raw),
{
    let w = d.width;
    let sh = d.shift;
    assert(1u32 << w >= 1) by (bit_vector)
        requires
            w < 32,
    ;
    let mask: u32 = (1u32 << w) - 1;
    let val = (raw >> sh) & mask;
    match d.div_type {
        DividerType::Linear => {
            assert(mask <= 0x7FFF_FFFF) by (bit_vector)
                requires
                    mask == ((1u32 << w) - 1) as u32,
                    w < 32,
            ;
            assert(val <= mask) by (bit_vector)
                requires
                    val == (raw >> sh) & mask,
            ;
            val + 1
        },
        DividerType::PowerOfTwo => {
            assert(val < 32) by (bit_vector)
                requires
                    val == (raw >> sh) & mask,
                    mask == ((1u32 << w) - 1) as u32,
                    w <= 5,
            ;
            1u32 << val
        },
        DividerType::Table => {
            let mut i: usize = 0;
            let ghost t = d.table@.subrange(0, d.table_len as int);
            while i < d.table_len
                invariant
                    d.table_len <= MAX_DIV_TABLE,
                    i <= d.table_len,
                    t == d.table@.subrange(0, d.table_len as int),
                    table_div(t, val, i as int) == table_div(t, val, 0),
                    val == (raw >> d.shift) & field_mask(d.width),
                    d.div_type == DividerType::Table,
                decreases d.table_len - i,
            {
                assert(t[i as int] == d.table@[i as int]);
                if d.table[i].0 as u32 == val {
                    return d.table[i].1;
                }
                i = i + 1;
            }
            1
        },
    }
}

/// Computes [`divider_round`].
pub fn divider_round_rate(d: &DividerHw, rate: u64, parent_rate: u64) -> (r: u64)
    requires
        d.width < 32,
    ensures
        r == divider_round(*d, rate, parent_rate),
{
    if parent_rate == 0 || rate == 0 {
        return 0;
    }
    let q = parent_rate / rate;
    let lo: u64 = if q < 1 { 1 } else { q };
    let w = d.width;
    let cap: u64 = 1u64 << w;
    let best = if lo > cap { cap } else { lo };
    assert(cap >= 1) by (bit_vector)
        requires
            cap == 1u64 << w,
            w < 32,
    ;
    parent_rate / best
}

/// Number of trailing zero bits of `x` (32 for 0).
pub open spec fn tz_spec(x: u32, i: u32) -> u32
    decreases 32 - i,
{
    if i >= 32 {
        32
    } else if (x >> i) & 1 == 1 {
        i
    } else {
        tz_spec(x, (i + 1) as u32)
    }
}

/// Counts the trailing zero bits of `x`.
pub fn trailing_zeros(x: u32) -> (r: u32)
    ensures
        r == tz_spec(x, 0),
{
    let mut i: u32 = 0;
    while i < 32
        invariant
            i <= 32,
            tz_spec(x, i) == tz_spec(x, 0),
        decreases 32 - i,
    {
        if (x >> i) & 1 == 1 {
            return i;
        }
        i = i + 1;
    }
    32
}

/// The register value of the first table entry with divisor `div` (0 when none has it).
pub open spec fn table_val(t: Seq<(u8, u32)>, div: u32, i: int) -> u32
    decreases t.len() - i,
{
    if i < 0 || i >= t.len() {
        0
    } else if t[i].1 == div {
        t[i].0 as u32
    } else {
        table_val(t, div, i + 1)
    }
}

/// The field bits a divider writes to select divisor `div`.
pub open spec fn divider_bits(d: DividerHw, div: u32) -> u32 {
    match d.div_type {
        DividerType::Linear => ((div - 1) as u32) << d.shift,
        DividerType::PowerOfTwo => if tz_spec(div, 0) >= 32 { 0 } else { tz_spec(div, 0) << d.shift },
        DividerType::Table => table_val(d.table@.subrange(0, d.table_len as int), div, 0) << d.shift,
    }
}

/// Encodes divisor `div` (at least 1) as the register field bits.
pub fn divider_field_bits(d: &DividerHw, div: u32) -> (r: u32)
    requires
        kind_ok(ClkKind::Divider(*d)),
        div >= 1,
    ensures
        r == divider_bits(*d, div),
{
    match d.div_type {
        DividerType::Linear => {
            let v: u32 = div - 1;
            v << d.shift
        },
        DividerType::PowerOfTwo => {
            let tz = trailing_zeros(div);
            if tz >= 32 {
                0
            } else {
                tz << d.shift
            }
        },
        DividerType::Table => {
            let mut i: usize = 0;
            let ghost t = d.table@.subrange(0, d.table_len as int);
            while i < d.table_len
                invariant
                    d.table_len <= MAX_DIV_TABLE,
                    i <= d.table_len,
                    t == d.table@.subrange(0, d.table_len as int),
                    table_val(t, div, i as int) == table_val(t, div, 0),
                    kind_ok(ClkKind::Divider(*d)),
                    d.div_type == DividerType::Table,
                decreases d.table_len - i,
            {
                assert(t[i as int] == d.table@[i as int]);
                if d.table[i].1 == div {
                    let v: u32 = d.table[i].0 as u32;
                    return v << d.shift;
                }
                i = i + 1;
            }
            0u32 << d.shift
        },
    }
}

/// The value a gate writes into its enable bit to turn on (`on`) or off.
pub open spec fn gate_bit_value(g: GateHw, on: bool) -> u32 {
    if on != g.inverted { (1u32 << g.bit) as u32 } else { 0 }
}

/// A gate's enable bit as a mask.
pub open spec fn gate_mask(g: GateHw) -> u32 {
    (1u32 << g.bit) as u32
}

/// Whether `seg` is the accesses of driving gate `g` on (`on`) or off: a
/// read of its register, then the write of the read value with the enable
/// bit at that level.
pub open spec fn gate_events(g: GateHw, on: bool, seg: Seq<IoEvent>) -> bool {
    &&& seg.len() == 2
    &&& seg[0] matches IoEvent::Read(a, cur) && seg == rmw_events(g.reg, cur, gate_mask(g), gate_bit_value(g, on))
}

/// Drives a gate's enable bit: sets it to the "on" or "off" level of its
/// polarity, keeping the register's other bits. Returns the value written.
pub fn gate_set<R: RegisterIo>(io: &mut R, g: &GateHw, on: bool) -> (written: u32)
    requires
        g.bit < 32,
    ensures
        exists|cur: u32| written == #[trigger] rmw_spec(cur, (1u32 << g.bit) as u32, gate_bit_value(*g, on)),
        extends(old(io).trace(), final(io).trace()),
        gate_events(*g, on, since(old(io).trace(), final(io).trace())),
{
    let mask: u32 = 1u32 << g.bit;
    let val: u32 = if on != g.inverted { mask } else { 0 };
    assert(val == gate_bit_value(*g, on));
    let written = rmw_reg(io, g.reg, mask, val);
    let ghost cur = choose|cur: u32| written == rmw_spec(cur, mask, val) && #[trigger] io.trace() == old(io).trace()
        + rmw_events(g.reg, cur, mask, val);
    assert(written == rmw_spec(cur, (1u32 << g.bit) as u32, gate_bit_value(*g, on)));
    proof {
        let n = old(io).trace().len() as int;
        assert(io.trace().subrange(0, n) =~= old(io).trace());
        assert(io.trace().subrange(n, io.trace().len() as int) =~= rmw_events(g.reg, cur, mask, val));
    }
    written
}

/// Turns a gate clock on.
pub fn gate_enable<R: RegisterIo>(io: &mut R, g: &GateHw) -> (r: Result<(), ClkError>)
    requires
        g.bit < 32,
    ensures
        r is Ok,
        extends(old(io).trace(), final(io).trace()),
        gate_events(*g, true, since(old(io).trace(), final(io).trace())),
{
    let _ = gate_set(io, g, true);
    Ok(())
}

/// Turns a gate clock off.
pub fn gate_disable<R: RegisterIo>(io: &mut R, g: &GateHw)
    requires
        g.bit < 32,
    ensures
        extends(old(io).trace(), final(io).trace()),
        gate_events(*g, false, since(old(io).trace(), final(io).trace())),
{
    let _ = gate_set(io, g, false);
}

/// The register bits of a mux's selector field.
pub open spec fn mux_field_mask(m: MuxHw) -> u32 {
    (((1u32 << m.width) - 1) as u32) << m.shift
}

/// The parent index a mux register value selects.
pub open spec fn mux_index(m: MuxHw, raw: u32) -> u32 {
    (raw >> m.shift) & field_mask(m.width)
}

/// Reads the parent index the mux hardware currently selects.
pub fn mux_get_parent<R: RegisterIo>(io: &mut R, m: &MuxHw) -> (r: u32)
    requires
        m.shift < 32,
        m.width < 32,
    ensures
        exists|raw: u32| r == #[trigger] mux_index(*m, raw) && final(io).trace() == old(io).trace().push(IoEvent::Read(m.reg, raw)),
{
    let w = m.width;
    assert(1u32 << w >= 1) by (bit_vector)
        requires
            w < 32,
    ;
    let mask: u32 = (1u32 << w) - 1;
    let raw = io.read_reg(m.reg);
    let r = (raw >> m.shift) & mask;
    assert(r == mux_index(*m, raw));
    r
}

/// Selects parent `index` of a mux: refused with `NoParent` past its last
/// parent, else the index is written into the register field.
pub fn mux_set_parent<R: RegisterIo>(io: &mut R, m: &MuxHw, index: u32) -> (r: Result<(), ClkError>)
    requires
        m.shift < 32,
        m.width < 32,
    ensures
        r is Ok <==> (index as int) < m.parent_cnt,
        r is Err ==> r == Err::<(), ClkError>(ClkError::NoParent) && final(io).trace() == old(io).trace(),
        r is Ok ==> exists|cur: u32| final(io).trace() == old(io).trace() + #[trigger] rmw_events(m.reg, cur, mux_field_mask(*m),
            (index << m.shift) as u32),
{
    if index as usize >= m.parent_cnt {
        return Err(ClkError::NoParent);
    }
    let w = m.width;
    assert(1u32 << w >= 1) by (bit_vector)
        requires
            w < 32,
    ;
    let mask: u32 = ((1u32 << w) - 1) << m.shift;
    let val: u32 = index << m.shift;
    assert(mask == mux_field_mask(*m));
    assert(val == (index << m.shift) as u32);
    let _ = rmw_reg(io, m.reg, mask, val);
    Ok(())
}

/// Most fixed-factor clocks the providers hand out.
pub const MAX_FF_CLOCKS: usize = 32;

/// Most gate clocks the providers hand out.
pub const MAX_GATE_CLOCKS: usize = 64;

/// Most divider clocks the providers hand out.
pub const MAX_DIV_CLOCKS: usize = 64;

/// Most mux clocks the providers hand out.
pub const MAX_MUX_CLOCKS: usize = 32;

/// Per-type counters of provider clocks. Each registration attempt that
/// reaches the counter takes the next index, successful or not; the index
/// becomes the clock's `hw` value.
pub struct ClkProviders {
    pub ff_count: usize,
    pub gate_count: usize,
    pub div_count: usize,
    pub mux_count: usize,
}

impl ClkProviders {
    /// No provider clock handed out yet.
    pub fn new() -> (r: Self)
        ensures
            r.ff_count == 0 && r.gate_count == 0 && r.div_count == 0 && r.mux_count == 0,
    {
        ClkProviders { ff_count: 0, gate_count: 0, div_count: 0, mux_count: 0 }
    }
}

/// `c` is the clock `ClkCore::new` builds for a provider of this kind:
/// no custom hooks, rate 0, depth 0, all counts 0.
pub open spec fn is_provider_clock(c: ClkCore, name: &str, hw: u64, kind: ClkKind, parent: u32, flags: u32) -> bool {
    &&& c.name@ == name_field(name.spec_bytes())
    &&& c.hw == hw
    &&& c.ops == ClkOps { kind: kind, prepare: false, unprepare: false, enable: false, disable: false }
    &&& c.flags == flags
    &&& c.rate == 0
    &&& c.parent == parent
    &&& c.depth == 0
    &&& c.ref_count == 0 && c.prepare_count == 0 && c.enable_count == 0
}

fn provider_ops(kind: ClkKind) -> (r: ClkOps)
    ensures
        r == (ClkOps { kind: kind, prepare: false, unprepare: false, enable: false, disable: false }),
{
    ClkOps { kind, prepare: false, unprepare: false, enable: false, disable: false }
}

/// Register a fixed-rate clock (a root with the FIXED_RATE flag).
pub fn clk_register_fixed_rate<H: ClkHardware>(reg: &mut ClkRegistry, hw: &mut H, name: &str, rate_hz: u64) -> (r: Result<
    ClkId,
    ClkError,
>)
    requires
        old(reg).wf(),
    ensures
        final(reg).wf(),
        exists|c: ClkCore| #[trigger] ClkCore::is_fixed(c, name, rate_hz) && register_spec(
            old(reg).clocks@,
            old(reg).count,
            c,
            r,
            final(reg).clocks@,
        ),
{
    let c = ClkCore::fixed(name, rate_hz);
    let r = clk_register(reg, hw, c);
    assert(ClkCore::is_fixed(c, name, rate_hz));
    r
}

/// Register a fixed-factor clock: output = parent × mult / div.
///
/// Refused with `RateOutOfRange` when `div` is 0 (no index taken), and
/// with `RegistryFull` once [`MAX_FF_CLOCKS`] indices have been taken.
pub fn clk_register_fixed_factor<H: ClkHardware>(
    reg: &mut ClkRegistry,
    prov: &mut ClkProviders,
    hw: &mut H,
    name: &str,
    parent: ClkId,
    mult: u32,
    div: u32,
) -> (r: Result<ClkId, ClkError>)
    requires
        old(reg).wf(),
        parent_ok(parent.0),
        parent_depth_ok(old(reg).clocks@, parent.0),
    ensures
        final(reg).wf(),
        final(prov).gate_count == old(prov).gate_count && final(prov).div_count == old(prov).div_count
            && final(prov).mux_count == old(prov).mux_count,
        div == 0 ==> r == Err::<ClkId, ClkError>(ClkError::RateOutOfRange) && final(reg).clocks@ == old(reg).clocks@
            && final(prov).ff_count == old(prov).ff_count,
        div != 0 ==> final(prov).ff_count == old(prov).ff_count.wrapping_add(1),
        div != 0 && old(prov).ff_count >= MAX_FF_CLOCKS ==> r == Err::<ClkId, ClkError>(ClkError::RegistryFull)
            && final(reg).clocks@ == old(reg).clocks@,
        div != 0 && old(prov).ff_count < MAX_FF_CLOCKS ==> exists|c: ClkCore|
            #[trigger] is_provider_clock(c, name, old(prov).ff_count as u64, ClkKind::FixedFactor { mult, div }, parent.0, 0)
                && register_spec(old(reg).clocks@, old(reg).count, c, r, final(reg).clocks@),
{
    if div == 0 {
        return Err(ClkError::RateOutOfRange);
    }
    let idx = prov.ff_count;
    prov.ff_count = prov.ff_count.wrapping_add(1);
    if idx >= MAX_FF_CLOCKS {
        return Err(ClkError::RegistryFull);
    }
    let c = ClkCore::new(name, idx as u64, provider_ops(ClkKind::FixedFactor { mult, div }), parent, 0);
    assert(is_provider_clock(c, name, idx as u64, ClkKind::FixedFactor { mult, div }, parent.0, 0));
    clk_register(reg, hw, c)
}

/// Register a gate clock controlled by bit `bit` of the register at
/// `reg_addr` (`inverted`: writing 0 enables it). Refused with
/// `RegistryFull` once [`MAX_GATE_CLOCKS`] indices have been taken.
pub fn clk_register_gate<H: ClkHardware>(
    reg: &mut ClkRegistry,
    prov: &mut ClkProviders,
    hw: &mut H,
    name: &str,
    parent: ClkId,
    reg_addr: u64,
    bit: u8,
    inverted: bool,
) -> (r: Result<ClkId, ClkError>)
    requires
        old(reg).wf(),
        parent_ok(parent.0),
        parent_depth_ok(old(reg).clocks@, parent.0),
        bit < 32,
    ensures
        final(reg).wf(),
        final(prov).ff_count == old(prov).ff_count && final(prov).div_count == old(prov).div_count
            && final(prov).mux_count == old(prov).mux_count,
        final(prov).gate_count == old(prov).gate_count.wrapping_add(1),
        old(prov).gate_count >= MAX_GATE_CLOCKS ==> r == Err::<ClkId, ClkError>(ClkError::RegistryFull)
            && final(reg).clocks@ == old(reg).clocks@,
        old(prov).gate_count < MAX_GATE_CLOCKS ==> exists|c: ClkCore|
            #[trigger] is_provider_clock(
                c,
                name,
                old(prov).gate_count as u64,
                ClkKind::Gate(GateHw { reg: reg_addr, bit, inverted }),
                parent.0,
                IS_GATABLE,
            ) && register_spec(old(reg).clocks@, old(reg).count, c, r, final(reg).clocks@),
{
    let idx = prov.gate_count;
    prov.gate_count = prov.gate_count.wrapping_add(1);
    if idx >= MAX_GATE_CLOCKS {
        return Err(ClkError::RegistryFull);
    }
    let kind = ClkKind::Gate(GateHw { reg: reg_addr, bit, inverted });
    let c = ClkCore::new(name, idx as u64, provider_ops(kind), parent, IS_GATABLE);
    assert(is_provider_clock(c, name, idx as u64, kind, parent.0, IS_GATABLE));
    clk_register(reg, hw, c)
}

/// Register a divider clock whose divisor sits in `width` bits at `shift`
/// of the register at `reg_addr`. Refused with `RegistryFull` once
/// [`MAX_DIV_CLOCKS`] indices have been taken.
pub fn clk_register_divider<H: ClkHardware>(
    reg: &mut ClkRegistry,
    prov: &mut ClkProviders,
    hw: &mut H,
    name: &str,
    parent: ClkId,
    reg_addr: u64,
    shift: u8,
    width: u8,
    div_type: DividerType,
) -> (r: Result<ClkId, ClkError>)
    requires
        old(reg).wf(),
        parent_ok(parent.0),
        parent_depth_ok(old(reg).clocks@, parent.0),
        shift < 32,
        width < 32,
        div_type == DividerType::PowerOfTwo ==> width <= 5,
    ensures
        final(reg).wf(),
        final(prov).ff_count == old(prov).ff_count && final(prov).gate_count == old(prov).gate_count
            && final(prov).mux_count == old(prov).mux_count,
        final(prov).div_count == old(prov).div_count.wrapping_add(1),
        old(prov).div_count >= MAX_DIV_CLOCKS ==> r == Err::<ClkId, ClkError>(ClkError::RegistryFull)
            && final(reg).clocks@ == old(reg).clocks@,
        old(prov).div_count < MAX_DIV_CLOCKS ==> exists|c: ClkCore, d: DividerHw|
            #[trigger] is_provider_clock(c, name, old(prov).div_count as u64, ClkKind::Divider(d), parent.0, 0)
                && d.reg == reg_addr && d.shift == shift && d.width == width && d.div_type == div_type && d.table_len == 0
                && register_spec(old(reg).clocks@, old(reg).count, c, r, final(reg).clocks@),
{
    let idx = prov.div_count;
    prov.div_count = prov.div_count.wrapping_add(1);
    if idx >= MAX_DIV_CLOCKS {
        return Err(ClkError::RegistryFull);
    }
    let d = DividerHw { reg: reg_addr, shift, width, div_type, table: [(0u8, 0u32); MAX_DIV_TABLE], table_len: 0 };
    let kind = ClkKind::Divider(d);
    let c = ClkCore::new(name, idx as u64, provider_ops(kind), parent, 0);
    assert(is_provider_clock(c, name, idx as u64, kind, parent.0, 0));
    clk_register(reg, hw, c)
}

/// The parent a new mux starts from: the one its hardware selects, or the
/// first when the selected index is past the list.
pub open spec fn mux_initial_parent(parents: Seq<ClkId>, sel: u32) -> ClkId {
    if (sel as int) < parents.len() {
        parents[sel as int]
    } else {
        parents[0]
    }
}

/// Register a mux clock choosing among `parents` (in hardware index order)
/// through `width` bits at `shift` of the register at `reg_addr`.
///
/// Refused with `NoParent` for an empty or too long parent list (no index
/// taken) and with `RegistryFull` once [`MAX_MUX_CLOCKS`] indices have been
/// taken. The clock starts on the parent its hardware selects.
pub fn clk_register_mux<H: ClkHardware>(
    reg: &mut ClkRegistry,
    prov: &mut ClkProviders,
    hw: &mut H,
    name: &str,
    reg_addr: u64,
    shift: u8,
    width: u8,
    parents: &[ClkId],
) -> (r: Result<ClkId, ClkError>)
    requires
        old(reg).wf(),
        forall|k: int| 0 <= k < parents@.len() ==> parent_ok(#[trigger] parents@[k].0) && parent_depth_ok(
            old(reg).clocks@,
            parents@[k].0,
        ),
        shift < 32,
        width < 32,
    ensures
        final(reg).wf(),
        final(prov).ff_count == old(prov).ff_count && final(prov).gate_count == old(prov).gate_count
            && final(prov).div_count == old(prov).div_count,
        parents@.len() == 0 || parents@.len() > MAX_MUX_PARENTS ==> r == Err::<ClkId, ClkError>(ClkError::NoParent)
            && final(reg).clocks@ == old(reg).clocks@ && final(prov).mux_count == old(prov).mux_count,
        0 < parents@.len() <= MAX_MUX_PARENTS ==> final(prov).mux_count == old(prov).mux_count.wrapping_add(1),
        0 < parents@.len() <= MAX_MUX_PARENTS && old(prov).mux_count >= MAX_MUX_CLOCKS ==> r == Err::<ClkId, ClkError>(
            ClkError::RegistryFull,
        ) && final(reg).clocks@ == old(reg).clocks@,
        0 < parents@.len() <= MAX_MUX_PARENTS && old(prov).mux_count < MAX_MUX_CLOCKS ==> exists|c: ClkCore, m: MuxHw, raw: u32|
            #[trigger] is_provider_clock(
                c,
                name,
                old(prov).mux_count as u64,
                ClkKind::Mux(m),
                mux_initial_parent(parents@, mux_index(m, raw)).0,
                0,
            ) && final(hw).trace() == old(hw).trace().push(IoEvent::Read(reg_addr, raw)) && m.reg == reg_addr && m.shift == shift && m.width == width && m.parent_cnt == parents@.len()
                && m.parents@.subrange(0, parents@.len() as int) == parents@ && register_spec(
                old(reg).clocks@,
                old(reg).count,
                c,
                r,
                final(reg).clocks@,
            ),
{
    if parents.len() == 0 || parents.len() > MAX_MUX_PARENTS {
        return Err(ClkError::NoParent);
    }
    let idx = prov.mux_count;
    prov.mux_count = prov.mux_count.wrapping_add(1);
    if idx >= MAX_MUX_CLOCKS {
        return Err(ClkError::RegistryFull);
    }
    let mut list = [ClkId(NO_PARENT); MAX_MUX_PARENTS];
    let mut k: usize = 0;
    while k < parents.len()
        invariant
            parents@.len() <= MAX_MUX_PARENTS,
            k <= parents@.len(),
            list@.len() == MAX_MUX_PARENTS,
            forall|j: int| 0 <= j < k ==> list@[j] == parents@[j],
        decreases parents@.len() - k,
    {
        list[k] = parents[k];
        k = k + 1;
    }
    assert(list@.subrange(0, parents@.len() as int) =~= parents@);
    let m = MuxHw { reg: reg_addr, shift, width, parents: list, parent_cnt: parents.len() };
    let ghost t0 = hw.trace();
    let sel = mux_get_parent(hw, &m);
    let ghost raw = choose|raw: u32| sel == #[trigger] mux_index(m, raw) && hw.trace() == t0.push(IoEvent::Read(m.reg, raw));
    let init_parent = if (sel as usize) < parents.len() {
        parents[sel as usize]
    } else {
        parents[0]
    };
    assert(init_parent == mux_initial_parent(parents@, sel));
    let kind = ClkKind::Mux(m);
    let c = ClkCore::new(name, idx as u64, provider_ops(kind), init_parent, 0);
    assert(is_provider_clock(c, name, idx as u64, kind, mux_initial_parent(parents@, mux_index(m, raw)).0, 0));
    clk_register(reg, hw, c)
}

} // verus!
