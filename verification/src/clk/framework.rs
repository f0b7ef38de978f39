//! Clock tree core and consumer API.
//!
//! Each clock node is a [`ClkCore`] in a slot of a [`ClkRegistry`],
//! identified by a [`ClkId`] (its slot index). Hardware hooks run through an
//! implementation of [`ClkHardware`].
use vstd::prelude::*;
use crate::clk::clk_flags::{ENABLED, FIXED_RATE, IS_CRITICAL, PREPARED};
use crate::clk::mmio::{ClkHookKind, IoEvent, RegisterIo, extends, since};
use crate::clk::provider::{
    ClkKind, DividerHw, kind_ok, ff_rate, fixed_factor_get_rate, divided_rate, divider_div, divider_get_div,
    divider_round, divider_round_rate, gate_disable, gate_enable, gate_events,
};
use crate::text::{find_seg_end, lemma_str_bytes_eq, seg_end, str_eq, utf8_str};
use vstd::string::StringSliceAdditionalSpecFns;
use vstd::utf8::valid_utf8;
use vstd::wrapping::i32_specs;

verus! {

/// Maximum number of clocks in a registry.
pub const MAX_CLOCKS: usize = 512;

/// Maximum clock tree depth.
pub const MAX_CLK_DEPTH: u32 = 15;

/// Maximum length of a clock name, including the terminating NUL.
pub const CLK_NAME_LEN: usize = 32;

/// Raw value of [`CLK_NO_PARENT`].
pub const NO_PARENT: u32 = 0xFFFF_FFFF;

/// Opaque clock identifier: the clock's slot in the registry.
#[derive(Clone, Copy, Debug, PartialEq, Eq, Structural)]
pub struct ClkId(pub u32);

/// Sentinel: no parent.
pub fn clk_no_parent() -> (r: ClkId)
    ensures
        r.0 == NO_PARENT,
{
    ClkId(NO_PARENT)
}

/// Errors of the clock framework.
#[derive(Debug, Clone, Copy, PartialEq, Eq, Structural)]
pub enum ClkError {
    /// Registry is full (`MAX_CLOCKS` reached).
    RegistryFull,
    /// Clock ID is out of range.
    InvalidId,
    /// Clock not found in the registry.
    NotFound,
    /// Rate cannot be changed (fixed-rate clock).
    FixedRate,
    /// `clk_enable` called before `clk_prepare`.
    NotPrepared,
    /// `clk_unregister` called while the clock is still enabled.
    StillEnabled,
    /// Hardware operation returned an error.
    HwError,
    /// Parent clock not found.
    NoParent,
    /// Rate is out of the clock's supported range.
    RateOutOfRange,
    /// Clock tree depth exceeds MAX_CLK_DEPTH.
    TreeTooDeep,
}

/// Hardware hooks a clock provider implements, on top of register access.
/// Each hook call is one entry of the access history, with its outcome.
pub trait ClkHardware: RegisterIo {
    /// Prepare the clock (allocate resources, power rails).
    fn prepare(&mut self, hw: u64) -> (r: Result<(), ClkError>)
        ensures
            final(self).trace() == old(self).trace().push(IoEvent::ClkHook(ClkHookKind::Prepare, hw, r is Ok));

    /// Undo preparation.
    fn unprepare(&mut self, hw: u64)
        ensures
            final(self).trace() == old(self).trace().push(IoEvent::ClkHook(ClkHookKind::Unprepare, hw, true));

    /// Enable the clock output in hardware.
    fn enable(&mut self, hw: u64) -> (r: Result<(), ClkError>)
        ensures
            final(self).trace() == old(self).trace().push(IoEvent::ClkHook(ClkHookKind::Enable, hw, r is Ok));

    /// Disable the clock output in hardware.
    fn disable(&mut self, hw: u64)
        ensures
            final(self).trace() == old(self).trace().push(IoEvent::ClkHook(ClkHookKind::Disable, hw, true));
}

/// Operations of a clock: its provider kind (which determines how rates
/// and parents are computed) and which custom hardware hooks it has.
#[derive(Clone, Copy)]
pub struct ClkOps {
    pub kind: ClkKind,
    /// Run [`ClkHardware::prepare`] on the first prepare.
    pub prepare: bool,
    /// Run [`ClkHardware::unprepare`] on the last unprepare.
    pub unprepare: bool,
    /// Run [`ClkHardware::enable`] on the first enable.
    pub enable: bool,
    /// Run [`ClkHardware::disable`] on the last disable.
    pub disable: bool,
}

impl ClkOps {
    /// Operations with no hooks and no rate computation.
    pub fn empty() -> (r: Self)
        ensures
            r.kind is Basic,
            !r.prepare && !r.unprepare && !r.enable && !r.disable,
    {
        ClkOps { kind: ClkKind::Basic, prepare: false, unprepare: false, enable: false, disable: false }
    }
}

/// A clock node.
#[derive(Clone, Copy)]
pub struct ClkCore {
    /// Name, NUL-padded.
    pub name: [u8; CLK_NAME_LEN],
    /// Hardware context handed to the hooks.
    pub hw: u64,
    pub ops: ClkOps,
    /// Capability and state flags (see `clk_flags`).
    pub flags: u32,
    /// Fixed or last-calculated rate in Hz.
    pub rate: u64,
    /// Slot of the parent clock, or [`NO_PARENT`].
    pub parent: u32,
    /// Depth in the clock tree (0 = root).
    pub depth: u32,
    /// Number of active `clk_get` references.
    pub ref_count: i32,
    /// Nesting count of `clk_prepare`.
    pub prepare_count: i32,
    /// Nesting count of `clk_enable`.
    pub enable_count: i32,
}

/// The name field that a name's bytes produce: at most 31 bytes, NUL-padded.
pub open spec fn name_field(b: Seq<u8>) -> Seq<u8> {
    Seq::new(
        CLK_NAME_LEN as nat,
        |i: int| if i < b.len() && i < CLK_NAME_LEN - 1 { b[i] } else { 0u8 },
    )
}

/// The bytes of a clock's name up to the first NUL.
pub open spec fn clk_name(c: ClkCore) -> Seq<u8> {
    c.name@.subrange(0, seg_end(c.name@, 0))
}

/// Whether a clock answers to the name `q` (an undecodable name reads as `<bad>`).
pub open spec fn clk_name_matches(c: ClkCore, q: &str) -> bool {
    if valid_utf8(clk_name(c)) {
        clk_name(c) == q.spec_bytes()
    } else {
        q@ == "<bad>"@
    }
}

fn copy_name(name: &str) -> (n: [u8; CLK_NAME_LEN])
    ensures
        n@ == name_field(name.spec_bytes()),
{
    let b = name.as_bytes();
    let mut n = [0u8; CLK_NAME_LEN];
    let len = if b.len() < CLK_NAME_LEN - 1 { b.len() } else { CLK_NAME_LEN - 1 };
    let mut i: usize = 0;
    while i < len
        invariant
            len <= b.len(),
            len < CLK_NAME_LEN,
            i <= len,
            b@ == name.spec_bytes(),
            n@.len() == CLK_NAME_LEN,
            forall|j: int| 0 <= j < i ==> n@[j] == b@[j],
            forall|j: int| i <= j < CLK_NAME_LEN ==> n@[j] == 0u8,
        decreases len - i,
    {
        n[i] = b[i];
        i = i + 1;
    }
    assert(n@ =~= name_field(name.spec_bytes()));
    n
}

impl ClkCore {
    /// `c` is the clock [`ClkCore::fixed`] builds: a fixed-rate root with
    /// no hooks.
    pub open spec fn is_fixed(c: ClkCore, name: &str, rate_hz: u64) -> bool {
        &&& c.name@ == name_field(name.spec_bytes())
        &&& c.hw == 0
        &&& c.ops.kind is Basic
        &&& !c.ops.prepare && !c.ops.unprepare && !c.ops.enable && !c.ops.disable
        &&& c.flags == FIXED_RATE
        &&& c.rate == rate_hz
        &&& c.parent == NO_PARENT
        &&& c.depth == 0
        &&& c.ref_count == 0 && c.prepare_count == 0 && c.enable_count == 0
    }

    /// Create a fixed-rate clock (no hardware ops needed).
    pub fn fixed(name: &str, rate_hz: u64) -> (c: Self)
        ensures
            Self::is_fixed(c, name, rate_hz),
    {
        ClkCore {
            name: copy_name(name),
            hw: 0,
            ops: ClkOps::empty(),
            flags: FIXED_RATE,
            rate: rate_hz,
            parent: NO_PARENT,
            depth: 0,
            ref_count: 0,
            prepare_count: 0,
            enable_count: 0,
        }
    }

    /// Create a generic clock with ops.
    pub fn new(name: &str, hw: u64, ops: ClkOps, parent: ClkId, flags: u32) -> (c: Self)
        ensures
            c.name@ == name_field(name.spec_bytes()),
            c.hw == hw,
            c.ops == ops,
            c.flags == flags,
            c.rate == 0,
            c.parent == parent.0,
            c.depth == 0,
            c.ref_count == 0 && c.prepare_count == 0 && c.enable_count == 0,
    {
        ClkCore {
            name: copy_name(name),
            hw,
            ops,
            flags,
            rate: 0,
            parent: parent.0,
            depth: 0,
            ref_count: 0,
            prepare_count: 0,
            enable_count: 0,
        }
    }

    /// The clock's name, or `<bad>` when its bytes are not valid UTF-8.
    pub fn name_str(&self) -> (s: &str)
        ensures
            valid_utf8(clk_name(*self)) ==> s.spec_bytes() == clk_name(*self),
            !valid_utf8(clk_name(*self)) ==> s@ == "<bad>"@,
    {
        let end = find_seg_end(&self.name, 0);
        let bytes = &self.name[0..end];
        assert(bytes@ == clk_name(*self));
        match utf8_str(bytes) {
            Some(s) => s,
            None => "<bad>",
        }
    }
}

/// A 64-bit value held as two 32-bit halves (high, low), for targets
/// whose atomics are 32 bits wide.
pub struct AtomicU64Wrapper(u32, u32);

impl View for AtomicU64Wrapper {
    type V = u64;

    closed spec fn view(&self) -> u64 {
        ((self.0 as u64) << 32u64) | (self.1 as u64)
    }
}

impl AtomicU64Wrapper {
    /// Holds `v`.
    pub fn new(v: u64) -> (r: Self)
        ensures
            r@ == v,
    {
        let r = AtomicU64Wrapper((v >> 32u64) as u32, v as u32);
        assert((((v >> 32u64) as u32 as u64) << 32u64) | (v as u32 as u64) == v) by (bit_vector);
        r
    }

    /// The value held.
    pub fn load(&self) -> (r: u64)
        ensures
            r == self@,
    {
        let hi = self.0 as u64;
        let lo = self.1 as u64;
        (hi << 32u64) | lo
    }

    /// Replace the value held by `v`; a later `load` returns `v`.
    pub fn store(&mut self, v: u64)
        ensures
            final(self)@ == v,
    {
        self.0 = (v >> 32u64) as u32;
        self.1 = v as u32;
        assert((((v >> 32u64) as u32 as u64) << 32u64) | (v as u32 as u64) == v) by (bit_vector);
    }
}

/// Number of occupied slots.
pub open spec fn num_registered(s: Seq<Option<ClkCore>>) -> nat
    decreases s.len(),
{
    if s.len() == 0 {
        0
    } else {
        num_registered(s.drop_last()) + if s.last() is Some { 1nat } else { 0nat }
    }
}

pub proof fn lemma_num_registered_update(s: Seq<Option<ClkCore>>, i: int, x: Option<ClkCore>)
    requires
        0 <= i < s.len(),
    ensures
        num_registered(s.update(i, x)) + (if s[i] is Some { 1int } else { 0int }) == num_registered(s)
            + (if x is Some { 1int } else { 0int }),
        num_registered(s) <= s.len(),
    decreases s.len(),
{
    if i == s.len() - 1 {
        assert(s.update(i, x).drop_last() =~= s.drop_last());
        lemma_num_registered_bound(s.drop_last());
    } else {
        assert(s.update(i, x).drop_last() =~= s.drop_last().update(i, x));
        lemma_num_registered_update(s.drop_last(), i, x);
    }
}

pub proof fn lemma_num_registered_bound(s: Seq<Option<ClkCore>>)
    ensures
        num_registered(s) <= s.len(),
    decreases s.len(),
{
    if s.len() > 0 {
        lemma_num_registered_bound(s.drop_last());
    }
}

pub proof fn lemma_num_registered_none(s: Seq<Option<ClkCore>>)
    requires
        forall|i: int| 0 <= i < s.len() ==> s[i] is None,
    ensures
        num_registered(s) == 0,
    decreases s.len(),
{
    if s.len() > 0 {
        lemma_num_registered_none(s.drop_last());
    }
}

/// A parent reference a registered clock may hold.
pub open spec fn parent_ok(p: u32) -> bool {
    p == NO_PARENT || p < MAX_CLOCKS
}

/// Invariants of a registered clock.
pub open spec fn clk_ok(c: ClkCore) -> bool {
    &&& parent_ok(c.parent)
    &&& kind_ok(c.ops.kind)
}

/// The clock registry: one optional clock per slot.
pub struct ClkRegistry {
    pub clocks: Vec<Option<ClkCore>>,
    pub count: usize,
}

impl ClkRegistry {
    /// Well-formedness: `MAX_CLOCKS` slots, `count` occupied ones, and every
    /// registered clock satisfies [`clk_ok`].
    pub open spec fn wf(&self) -> bool {
        &&& self.clocks@.len() == MAX_CLOCKS
        &&& self.count == num_registered(self.clocks@)
        &&& forall|i: int| 0 <= i < MAX_CLOCKS && #[trigger] self.clocks@[i] is Some ==> clk_ok(self.clocks@[i].unwrap())
    }

    /// An empty registry.
    pub fn new() -> (r: Self)
        ensures
            r.wf(),
            forall|i: int| 0 <= i < MAX_CLOCKS ==> #[trigger] r.clocks@[i] is None,
    {
        let mut clocks: Vec<Option<ClkCore>> = Vec::new();
        let mut i: usize = 0;
        while i < MAX_CLOCKS
            invariant
                i <= MAX_CLOCKS,
                clocks@.len() == i,
                forall|j: int| 0 <= j < i ==> #[trigger] clocks@[j] is None,
            decreases MAX_CLOCKS - i,
        {
            clocks.push(None);
            i = i + 1;
        }
        proof {
            lemma_num_registered_none(clocks@);
        }
        ClkRegistry { clocks, count: 0 }
    }
}

/// The clock in slot `id`, if any.
pub open spec fn slot(clocks: Seq<Option<ClkCore>>, id: u32) -> Option<ClkCore> {
    if (id as int) < clocks.len() {
        clocks[id as int]
    } else {
        None
    }
}

/// The rate a clock's parent contributes (0 when it has none).
pub open spec fn parent_rate_spec(clocks: Seq<Option<ClkCore>>, parent: u32) -> u64 {
    if parent == NO_PARENT {
        0
    } else {
        match slot(clocks, parent) {
            Some(p) => p.rate,
            None => 0,
        }
    }
}

/// The chain from `id` towards the root, at most `fuel` clocks long; a
/// missing slot ends it.
pub open spec fn clk_chain(clocks: Seq<Option<ClkCore>>, id: u32, fuel: nat) -> Seq<u32>
    decreases fuel,
{
    if fuel == 0 || id == NO_PARENT {
        Seq::empty()
    } else {
        let next = match slot(clocks, id) {
            Some(c) => c.parent,
            None => NO_PARENT,
        };
        seq![id].add(clk_chain(clocks, next, (fuel - 1) as nat))
    }
}

/// The chain `clk_prepare` and its relatives walk: up to 16 clocks.
pub open spec fn walk_chain(clocks: Seq<Option<ClkCore>>, id: u32) -> Seq<u32> {
    clk_chain(clocks, id, (MAX_CLK_DEPTH + 1) as nat)
}

pub proof fn lemma_chain_shape(clocks: Seq<Option<ClkCore>>, id: u32, fuel: nat)
    requires
        forall|i: int| 0 <= i < clocks.len() && #[trigger] clocks[i] is Some ==> parent_ok(clocks[i].unwrap().parent),
        clocks.len() == MAX_CLOCKS,
        parent_ok(id),
    ensures
        clk_chain(clocks, id, fuel).len() <= fuel,
        forall|k: int| 0 <= k < clk_chain(clocks, id, fuel).len() ==> #[trigger] clk_chain(clocks, id, fuel)[k] < MAX_CLOCKS,
        forall|k: int| 0 <= k < clk_chain(clocks, id, fuel).len() - 1 ==> #[trigger] slot(clocks, clk_chain(clocks, id, fuel)[k]) is Some,
    decreases fuel,
{
    if fuel > 0 && id != NO_PARENT {
        let next = match slot(clocks, id) {
            Some(c) => c.parent,
            None => NO_PARENT,
        };
        lemma_chain_shape(clocks, next, (fuel - 1) as nat);
        let rest = clk_chain(clocks, next, (fuel - 1) as nat);
        let ch = clk_chain(clocks, id, fuel);
        assert(ch =~= seq![id].add(rest));
        assert forall|k: int| 0 <= k < ch.len() - 1 implies #[trigger] slot(clocks, ch[k]) is Some by {
            if k > 0 {
                assert(ch[k] == rest[k - 1]);
            } else if slot(clocks, id) is None {
                assert(rest.len() == 0);
            }
        }
    }
}

fn build_chain(reg: &ClkRegistry, id: ClkId) -> (ch: Vec<u32>)
    requires
        reg.wf(),
        parent_ok(id.0),
    ensures
        ch@ == walk_chain(reg.clocks@, id.0),
{
    let mut ch: Vec<u32> = Vec::new();
    let mut current = id.0;
    let mut depth: usize = 0;
    while current != NO_PARENT && depth <= MAX_CLK_DEPTH as usize
        invariant
            reg.wf(),
            parent_ok(current),
            depth <= MAX_CLK_DEPTH + 1,
            ch@.len() == depth,
            ch@.add(clk_chain(reg.clocks@, current, (MAX_CLK_DEPTH + 1 - depth) as nat)) == walk_chain(reg.clocks@, id.0),
        decreases MAX_CLK_DEPTH + 1 - depth,
    {
        let ghost fuel = (MAX_CLK_DEPTH + 1 - depth) as nat;
        let next = match &reg.clocks[current as usize] {
            Some(c) => c.parent,
            None => NO_PARENT,
        };
        proof {
            let rest = clk_chain(reg.clocks@, next, (fuel - 1) as nat);
            assert(clk_chain(reg.clocks@, current, fuel) == seq![current].add(rest));
            assert(ch@.push(current).add(rest) =~= ch@.add(seq![current].add(rest)));
            if reg.clocks@[current as int] is Some {
                assert(clk_ok(reg.clocks@[current as int].unwrap()));
            }
        }
        ch.push(current);
        current = next;
        depth = depth + 1;
    }
    proof {
        assert(clk_chain(reg.clocks@, current, (MAX_CLK_DEPTH + 1 - depth) as nat) =~= Seq::<u32>::empty());
        assert(ch@.add(Seq::<u32>::empty()) =~= ch@);
    }
    ch
}


/// A per-clock state transition of the prepare/enable protocol.
#[derive(Clone, Copy, PartialEq, Eq, Structural)]
pub enum ClkStep {
    /// One more prepare; the first one marks the clock prepared.
    Prepare,
    /// One more prepare whose hardware hook failed: the count only.
    PrepareCount,
    /// One less prepare; the last one clears the prepared mark.
    Unprepare,
    /// One more enable; the first one marks the clock enabled.
    Enable,
    /// One more enable whose hardware hook failed: the count only.
    EnableCount,
    /// One less enable (critical clocks are left alone); the last one
    /// clears the enabled mark.
    Disable,
}

/// The effect of one step on a clock.
pub open spec fn step_clk(op: ClkStep, c: ClkCore) -> ClkCore {
    match op {
        ClkStep::Prepare => ClkCore {
            prepare_count: i32_specs::wrapping_add(c.prepare_count, 1),
            flags: if c.prepare_count == 0 { c.flags | PREPARED } else { c.flags },
            ..c
        },
        ClkStep::PrepareCount => ClkCore { prepare_count: i32_specs::wrapping_add(c.prepare_count, 1), ..c },
        ClkStep::Unprepare => ClkCore {
            prepare_count: i32_specs::wrapping_sub(c.prepare_count, 1),
            flags: if c.prepare_count == 1 { c.flags & !PREPARED } else { c.flags },
            ..c
        },
        ClkStep::Enable => ClkCore {
            enable_count: i32_specs::wrapping_add(c.enable_count, 1),
            flags: if c.enable_count == 0 { c.flags | ENABLED } else { c.flags },
            ..c
        },
        ClkStep::EnableCount => ClkCore { enable_count: i32_specs::wrapping_add(c.enable_count, 1), ..c },
        ClkStep::Disable => if c.flags & IS_CRITICAL != 0 {
            c
        } else {
            ClkCore {
                enable_count: i32_specs::wrapping_sub(c.enable_count, 1),
                flags: if c.enable_count == 1 { c.flags & !ENABLED } else { c.flags },
                ..c
            }
        },
    }
}

/// Applies a step to the clock in slot `id` (a missing clock is left alone).
pub open spec fn step_at(clocks: Seq<Option<ClkCore>>, id: u32, op: ClkStep) -> Seq<Option<ClkCore>> {
    match slot(clocks, id) {
        Some(c) => clocks.update(id as int, Some(step_clk(op, c))),
        None => clocks,
    }
}

/// Applies a step along a chain from its last element (the root) to its
/// first (the leaf): the order of prepare and enable.
pub open spec fn apply_root_first(clocks: Seq<Option<ClkCore>>, ch: Seq<u32>, op: ClkStep) -> Seq<Option<ClkCore>>
    decreases ch.len(),
{
    if ch.len() == 0 {
        clocks
    } else {
        step_at(apply_root_first(clocks, ch.drop_first(), op), ch[0], op)
    }
}

/// Applies a step along a chain from its first element (the leaf) to its
/// last (the root): the order of unprepare and disable.
pub open spec fn apply_leaf_first(clocks: Seq<Option<ClkCore>>, ch: Seq<u32>, op: ClkStep) -> Seq<Option<ClkCore>>
    decreases ch.len(),
{
    if ch.len() == 0 {
        clocks
    } else {
        apply_leaf_first(step_at(clocks, ch[0], op), ch.drop_first(), op)
    }
}

/// Steps keep the occupancy of every slot and the fields that
/// [`clk_ok`] constrains.
pub proof fn lemma_step_at_shape(clocks: Seq<Option<ClkCore>>, id: u32, op: ClkStep)
    ensures
        step_at(clocks, id, op).len() == clocks.len(),
        forall|i: int| 0 <= i < clocks.len() ==> (#[trigger] step_at(clocks, id, op)[i] is Some) == (clocks[i] is Some),
        forall|i: int| 0 <= i < clocks.len() && clocks[i] is Some ==> {
            let a = #[trigger] step_at(clocks, id, op)[i].unwrap();
            let b = clocks[i].unwrap();
            a.parent == b.parent && a.depth == b.depth && a.ops == b.ops && a.hw == b.hw
                && a.rate == b.rate && a.name == b.name && a.ref_count == b.ref_count
        },
        num_registered(step_at(clocks, id, op)) == num_registered(clocks),
{
    if slot(clocks, id) is Some {
        lemma_num_registered_update(clocks, id as int, Some(step_clk(op, slot(clocks, id).unwrap())));
    }
}

pub proof fn lemma_apply_root_first_shape(clocks: Seq<Option<ClkCore>>, ch: Seq<u32>, op: ClkStep)
    ensures
        apply_root_first(clocks, ch, op).len() == clocks.len(),
        forall|i: int| 0 <= i < clocks.len() ==> (#[trigger] apply_root_first(clocks, ch, op)[i] is Some) == (clocks[i] is Some),
        forall|i: int| 0 <= i < clocks.len() && clocks[i] is Some ==> {
            let a = #[trigger] apply_root_first(clocks, ch, op)[i].unwrap();
            let b = clocks[i].unwrap();
            a.parent == b.parent && a.depth == b.depth && a.ops == b.ops && a.hw == b.hw
                && a.rate == b.rate && a.name == b.name && a.ref_count == b.ref_count
        },
        num_registered(apply_root_first(clocks, ch, op)) == num_registered(clocks),
    decreases ch.len(),
{
    if ch.len() > 0 {
        lemma_apply_root_first_shape(clocks, ch.drop_first(), op);
        lemma_step_at_shape(apply_root_first(clocks, ch.drop_first(), op), ch[0], op);
    }
}

/// What [`ClkRegistry::wf`] asks of the clock slots.
pub open spec fn slots_ok(clocks: Seq<Option<ClkCore>>) -> bool {
    &&& clocks.len() == MAX_CLOCKS
    &&& forall|i: int| 0 <= i < MAX_CLOCKS && #[trigger] clocks[i] is Some ==> clk_ok(clocks[i].unwrap())
}

/// The hardware accesses of one successful step on clock `c` (its state
/// before the step): the first prepare runs the prepare hook, the first
/// enable the enable hook (a gate without one drives its enable bit), the
/// last unprepare the unprepare hook, the last disable of a non-critical
/// clock the disable hook (a gate without one drives its bit off); other
/// steps touch no hardware.
pub open spec fn hook_events(op: ClkStep, c: ClkCore, seg: Seq<IoEvent>) -> bool {
    match op {
        ClkStep::Prepare => if c.prepare_count == 0 && c.ops.prepare {
            seg == seq![IoEvent::ClkHook(ClkHookKind::Prepare, c.hw, true)]
        } else {
            seg.len() == 0
        },
        ClkStep::Enable => if c.enable_count == 0 {
            if c.ops.enable {
                seg == seq![IoEvent::ClkHook(ClkHookKind::Enable, c.hw, true)]
            } else {
                match c.ops.kind {
                    ClkKind::Gate(g) => gate_events(g, true, seg),
                    _ => seg.len() == 0,
                }
            }
        } else {
            seg.len() == 0
        },
        ClkStep::Unprepare => if c.prepare_count == 1 && c.ops.unprepare {
            seg == seq![IoEvent::ClkHook(ClkHookKind::Unprepare, c.hw, true)]
        } else {
            seg.len() == 0
        },
        ClkStep::Disable => if c.flags & IS_CRITICAL == 0 && c.enable_count == 1 {
            if c.ops.disable {
                seg == seq![IoEvent::ClkHook(ClkHookKind::Disable, c.hw, true)]
            } else {
                match c.ops.kind {
                    ClkKind::Gate(g) => gate_events(g, false, seg),
                    _ => seg.len() == 0,
                }
            }
        } else {
            seg.len() == 0
        },
        _ => seg.len() == 0,
    }
}

/// [`hook_events`] for the clock in slot `id` (none for an empty slot).
pub open spec fn slot_events(clocks: Seq<Option<ClkCore>>, id: u32, op: ClkStep, seg: Seq<IoEvent>) -> bool {
    match slot(clocks, id) {
        Some(c) => hook_events(op, c, seg),
        None => seg.len() == 0,
    }
}

/// Whether `t` is the hardware accesses of applying `op` along `ch` root
/// first (see [`apply_root_first`]): the root's, then its child's, down to
/// the leaf's.
pub open spec fn root_events(clocks: Seq<Option<ClkCore>>, ch: Seq<u32>, op: ClkStep, t: Seq<IoEvent>) -> bool
    decreases ch.len(),
{
    if ch.len() == 0 {
        t.len() == 0
    } else {
        exists|n: int| #![trigger t.subrange(0, n)]
            0 <= n <= t.len() && root_events(clocks, ch.drop_first(), op, t.subrange(0, n)) && slot_events(
                apply_root_first(clocks, ch.drop_first(), op),
                ch[0],
                op,
                t.subrange(n, t.len() as int),
            )
    }
}

/// Whether `t` is the hardware accesses of applying `op` along `ch` leaf
/// first (see [`apply_leaf_first`]).
pub open spec fn leaf_events(clocks: Seq<Option<ClkCore>>, ch: Seq<u32>, op: ClkStep, t: Seq<IoEvent>) -> bool
    decreases ch.len(),
{
    if ch.len() == 0 {
        t.len() == 0
    } else {
        exists|n: int| #![trigger t.subrange(0, n)]
            0 <= n <= t.len() && slot_events(clocks, ch[0], op, t.subrange(0, n)) && leaf_events(
                step_at(clocks, ch[0], op),
                ch.drop_first(),
                op,
                t.subrange(n, t.len() as int),
            )
    }
}

/// The hook a root-first walk runs.
pub open spec fn walk_hook(enable: bool) -> ClkHookKind {
    if enable { ClkHookKind::Enable } else { ClkHookKind::Prepare }
}

/// Whether `t` is the accesses of a root-first walk stopped by the failing
/// hook of `ch[k]`: the steps of `ch[k+1..]`, then that hook's failure.
pub open spec fn failed_events(clocks: Seq<Option<ClkCore>>, ch: Seq<u32>, k: int, enable: bool, t: Seq<IoEvent>) -> bool {
    exists|n: int| #![trigger t.subrange(0, n)]
        0 <= n <= t.len() && root_events(clocks, ch.subrange(k + 1, ch.len() as int), walk_op(enable), t.subrange(0, n))
            && t.subrange(n, t.len() as int) == seq![IoEvent::ClkHook(walk_hook(enable), slot(clocks, ch[k]).unwrap().hw, false)]
}

/// Appending `seg` to `t` splits back into `t` and `seg`.
proof fn lemma_split(t: Seq<IoEvent>, seg: Seq<IoEvent>)
    ensures
        (t + seg).subrange(0, t.len() as int) == t,
        (t + seg).subrange(t.len() as int, (t + seg).len() as int) == seg,
{
    assert((t + seg).subrange(0, t.len() as int) =~= t);
    assert((t + seg).subrange(t.len() as int, (t + seg).len() as int) =~= seg);
}

/// Runs the prepare hook of a clock that has one.
fn run_prepare_hook<H: ClkHardware>(hw: &mut H, c: &ClkCore) -> (r: Result<(), ClkError>)
    ensures
        !c.ops.prepare ==> r is Ok,
        extends(old(hw).trace(), final(hw).trace()),
        since(old(hw).trace(), final(hw).trace()) == if c.ops.prepare {
            seq![IoEvent::ClkHook(ClkHookKind::Prepare, c.hw, r is Ok)]
        } else {
            seq![]
        },
{
    proof {
        assert(old(hw).trace().subrange(0, old(hw).trace().len() as int) =~= old(hw).trace());
        assert(since(old(hw).trace(), old(hw).trace()) =~= seq![]);
    }
    if c.ops.prepare {
        let r = hw.prepare(c.hw);
        proof {
            assert(hw.trace().subrange(0, old(hw).trace().len() as int) =~= old(hw).trace());
            assert(since(old(hw).trace(), hw.trace()) =~= seq![IoEvent::ClkHook(ClkHookKind::Prepare, c.hw, r is Ok)]);
        }
        r
    } else {
        Ok(())
    }
}

/// Runs a clock's enable hook: its own when it has one, else the
/// built-in one of a gate.
fn run_enable_hook<H: ClkHardware>(hw: &mut H, c: &ClkCore) -> (r: Result<(), ClkError>)
    requires
        kind_ok(c.ops.kind),
    ensures
        !c.ops.enable ==> r is Ok,
        extends(old(hw).trace(), final(hw).trace()),
        c.ops.enable ==> since(old(hw).trace(), final(hw).trace()) == seq![IoEvent::ClkHook(ClkHookKind::Enable, c.hw, r is Ok)],
        !c.ops.enable ==> match c.ops.kind {
            ClkKind::Gate(g) => gate_events(g, true, since(old(hw).trace(), final(hw).trace())),
            _ => since(old(hw).trace(), final(hw).trace()).len() == 0,
        },
{
    proof {
        assert(old(hw).trace().subrange(0, old(hw).trace().len() as int) =~= old(hw).trace());
    }
    if c.ops.enable {
        let r = hw.enable(c.hw);
        proof {
            assert(hw.trace().subrange(0, old(hw).trace().len() as int) =~= old(hw).trace());
            assert(since(old(hw).trace(), hw.trace()) =~= seq![IoEvent::ClkHook(ClkHookKind::Enable, c.hw, r is Ok)]);
        }
        r
    } else {
        match &c.ops.kind {
            ClkKind::Gate(g) => gate_enable(hw, g),
            _ => Ok(()),
        }
    }
}

/// Whether no clock of the chain has the given hook.
pub open spec fn chain_without_prepare_hook(clocks: Seq<Option<ClkCore>>, ch: Seq<u32>) -> bool {
    forall|k: int| 0 <= k < ch.len() && #[trigger] slot(clocks, ch[k]) is Some ==> !slot(clocks, ch[k]).unwrap().ops.prepare
}

pub open spec fn chain_without_enable_hook(clocks: Seq<Option<ClkCore>>, ch: Seq<u32>) -> bool {
    forall|k: int| 0 <= k < ch.len() && #[trigger] slot(clocks, ch[k]) is Some ==> !slot(clocks, ch[k]).unwrap().ops.enable
}

/// Whether the chain ends in an empty slot.
pub open spec fn chain_broken(clocks: Seq<Option<ClkCore>>, ch: Seq<u32>) -> bool {
    ch.len() > 0 && slot(clocks, ch.last()) is None
}

/// The states a root-first walk can stop in when a hook of `ch[k]` fails:
/// the steps of `ch[k+1..]` applied, and the count-only step at `ch[k]`.
pub open spec fn stopped_at(old: Seq<Option<ClkCore>>, ch: Seq<u32>, k: int, op: ClkStep, count_op: ClkStep) -> Seq<Option<ClkCore>> {
    step_at(apply_root_first(old, ch.subrange(k + 1, ch.len() as int), op), ch[k], count_op)
}

/// The step a root-first walk applies.
pub open spec fn walk_op(enable: bool) -> ClkStep {
    if enable { ClkStep::Enable } else { ClkStep::Prepare }
}

/// The step left behind when a hook fails during a root-first walk.
pub open spec fn walk_count_op(enable: bool) -> ClkStep {
    if enable { ClkStep::EnableCount } else { ClkStep::PrepareCount }
}

/// Walks a chain root first, applying `op`; when the first step of a clock
/// (count 0 before it) has a hook, the hook runs between the count update
/// and the mark.
fn walk_root_first<H: ClkHardware>(reg: &mut ClkRegistry, hw: &mut H, ch: &Vec<u32>, enable: bool) -> (r: Result<(), ClkError>)
    requires
        old(reg).wf(),
        forall|k: int| 0 <= k < ch@.len() ==> #[trigger] ch@[k] < MAX_CLOCKS,
        forall|k: int| 0 <= k < ch@.len() - 1 ==> #[trigger] slot(old(reg).clocks@, ch@[k]) is Some,
    ensures
        final(reg).wf(),
        final(reg).count == old(reg).count,
        chain_broken(old(reg).clocks@, ch@) ==> r == Err::<(), ClkError>(ClkError::NotFound) && final(reg).clocks@ == old(reg).clocks@,
        r is Ok ==> final(reg).clocks@ == apply_root_first(old(reg).clocks@, ch@, walk_op(enable)),
        r is Err && !chain_broken(old(reg).clocks@, ch@) ==> exists|k: int| 0 <= k < ch@.len() && #[trigger] stopped_at(old(reg).clocks@, ch@, k,
            walk_op(enable),
            walk_count_op(enable)) == final(reg).clocks@,
        !enable && chain_without_prepare_hook(old(reg).clocks@, ch@) && !chain_broken(old(reg).clocks@, ch@) ==> r is Ok,
        enable && chain_without_enable_hook(old(reg).clocks@, ch@) && !chain_broken(old(reg).clocks@, ch@) ==> r is Ok,
        extends(old(hw).trace(), final(hw).trace()),
        chain_broken(old(reg).clocks@, ch@) ==> final(hw).trace() == old(hw).trace(),
        r is Ok ==> root_events(old(reg).clocks@, ch@, walk_op(enable), since(old(hw).trace(), final(hw).trace())),
        r is Err && !chain_broken(old(reg).clocks@, ch@) ==> exists|k: int| 0 <= k < ch@.len() && #[trigger] stopped_at(old(reg).clocks@, ch@, k,
            walk_op(enable),
            walk_count_op(enable)) == final(reg).clocks@ && failed_events(old(reg).clocks@, ch@, k, enable, since(old(hw).trace(), final(hw).trace())),
{
    let ghost op = walk_op(enable);
    let ghost count_op = walk_count_op(enable);
    let ghost old_clocks = reg.clocks@;
    let ghost t0 = hw.trace();
    let mut i = ch.len();
    assert(ch@.subrange(i as int, ch@.len() as int) =~= Seq::<u32>::empty());
    proof {
        assert(hw.trace().subrange(0, t0.len() as int) =~= t0);
        assert(since(t0, hw.trace()) =~= Seq::<IoEvent>::empty());
    }
    while i > 0
        invariant
            t0 == old(hw).trace(),
            extends(t0, hw.trace()),
            root_events(old_clocks, ch@.subrange(i as int, ch@.len() as int), op, since(t0, hw.trace())),
            i == ch@.len() ==> hw.trace() == t0,
            i <= ch@.len(),
            reg.wf(),
            reg.count == num_registered(old_clocks),
            reg.count == old(reg).count,
            old_clocks == old(reg).clocks@,
            forall|k: int| 0 <= k < ch@.len() ==> #[trigger] ch@[k] < MAX_CLOCKS,
            forall|k: int| 0 <= k < ch@.len() - 1 ==> #[trigger] slot(old_clocks, ch@[k]) is Some,
            reg.clocks@ == apply_root_first(old_clocks, ch@.subrange(i as int, ch@.len() as int), op),
            i < ch@.len() ==> !chain_broken(old_clocks, ch@),
            op == walk_op(enable),
            count_op == walk_count_op(enable),
        decreases i,
    {
        let cid = ch[i - 1];
        let ghost before = reg.clocks@;
        proof {
            lemma_apply_root_first_shape(old_clocks, ch@.subrange(i as int, ch@.len() as int), op);
            assert(ch@.subrange(i - 1, ch@.len() as int).drop_first() =~= ch@.subrange(i as int, ch@.len() as int));
        }
        let c = match reg.clocks[cid as usize] {
            Some(c) => c,
            None => {
                proof {
                    if i < ch@.len() {
                        assert(slot(old_clocks, ch@[i - 1]) is Some);
                    }
                    assert(i == ch@.len());
                    assert(ch@.subrange(i as int, ch@.len() as int) =~= Seq::<u32>::empty());
                }
                return Err(ClkError::NotFound);
            },
        };
        proof {
            assert(slot(old_clocks, cid) is Some);
            assert(c.ops == slot(old_clocks, ch@[i - 1]).unwrap().ops);
        }
        let prev = if enable { c.enable_count } else { c.prepare_count };
        let mut c2 = c;
        if enable {
            c2.enable_count = prev.wrapping_add(1);
        } else {
            c2.prepare_count = prev.wrapping_add(1);
        }
        proof {
            lemma_num_registered_update(reg.clocks@, cid as int, Some(c2));
        }
        reg.clocks.set(cid as usize, Some(c2));
        assert(reg.clocks@ == step_at(before, cid, count_op));
        let ghost app = since(t0, hw.trace());
        let ghost mid = hw.trace();
        proof {
            assert(c == slot(before, cid).unwrap());
            assert(ch@.subrange(i - 1, ch@.len() as int)[0] == cid);
            assert(before == apply_root_first(old_clocks, ch@.subrange(i - 1, ch@.len() as int).drop_first(), op));
        }
        if prev == 0 {
            let hook = if enable { run_enable_hook(hw, &c) } else { run_prepare_hook(hw, &c) };
            proof {
                lemma_split(app, since(mid, hw.trace()));
                assert(since(t0, hw.trace()) =~= app + since(mid, hw.trace()));
                assert(hw.trace().subrange(0, t0.len() as int) =~= t0);
            }
            if hook.is_err() {
                proof {
                    assert(stopped_at(old_clocks, ch@, i - 1, op, count_op) == reg.clocks@);
                    let t = since(t0, hw.trace());
                    assert(t.subrange(0, app.len() as int) == app);
                    assert(ch@.subrange(i - 1 + 1, ch@.len() as int) == ch@.subrange(i as int, ch@.len() as int));
                    assert(failed_events(old_clocks, ch@, i - 1, enable, t));
                }
                return hook;
            }
            proof {
                let t = since(t0, hw.trace());
                let sub = ch@.subrange(i - 1, ch@.len() as int);
                assert(t.subrange(0, app.len() as int) == app);
                assert(slot_events(before, cid, op, t.subrange(app.len() as int, t.len() as int)));
                assert(root_events(old_clocks, sub, op, t));
            }
            if enable {
                c2.flags = c2.flags | ENABLED;
            } else {
                c2.flags = c2.flags | PREPARED;
            }
            proof {
                lemma_num_registered_update(reg.clocks@, cid as int, Some(c2));
            }
            reg.clocks.set(cid as usize, Some(c2));
        } else {
            proof {
                let t = since(t0, hw.trace());
                let sub = ch@.subrange(i - 1, ch@.len() as int);
                lemma_split(app, Seq::<IoEvent>::empty());
                assert(app + Seq::<IoEvent>::empty() =~= app);
                assert(slot_events(before, cid, op, t.subrange(app.len() as int, t.len() as int)));
                assert(root_events(old_clocks, sub, op, t));
            }
        }
        assert(reg.clocks@ =~= step_at(before, cid, op));
        i = i - 1;
    }
    assert(ch@.subrange(0, ch@.len() as int) =~= ch@);
    Ok(())
}


/// The step a leaf-first walk applies.
pub open spec fn unwalk_op(disable: bool) -> ClkStep {
    if disable { ClkStep::Disable } else { ClkStep::Unprepare }
}

pub proof fn lemma_apply_leaf_first_shape(clocks: Seq<Option<ClkCore>>, ch: Seq<u32>, op: ClkStep)
    ensures
        apply_leaf_first(clocks, ch, op).len() == clocks.len(),
        forall|i: int| 0 <= i < clocks.len() ==> (#[trigger] apply_leaf_first(clocks, ch, op)[i] is Some) == (clocks[i] is Some),
        forall|i: int| 0 <= i < clocks.len() && clocks[i] is Some ==> {
            let a = #[trigger] apply_leaf_first(clocks, ch, op)[i].unwrap();
            let b = clocks[i].unwrap();
            a.parent == b.parent && a.depth == b.depth && a.ops == b.ops && a.hw == b.hw
                && a.rate == b.rate && a.name == b.name && a.ref_count == b.ref_count
        },
        num_registered(apply_leaf_first(clocks, ch, op)) == num_registered(clocks),
    decreases ch.len(),
{
    if ch.len() > 0 {
        lemma_step_at_shape(clocks, ch[0], op);
        lemma_apply_leaf_first_shape(step_at(clocks, ch[0], op), ch.drop_first(), op);
    }
}

/// Walks a chain leaf first applying `op` (unprepare or disable); the last
/// step of a clock runs its hook, if it has one, before clearing the mark.
fn walk_leaf_first<H: ClkHardware>(reg: &mut ClkRegistry, hw: &mut H, ch: &Vec<u32>, disable: bool)
    requires
        old(reg).wf(),
        forall|k: int| 0 <= k < ch@.len() ==> #[trigger] ch@[k] < MAX_CLOCKS,
    ensures
        final(reg).wf(),
        final(reg).count == old(reg).count,
        final(reg).clocks@ == apply_leaf_first(old(reg).clocks@, ch@, unwalk_op(disable)),
        extends(old(hw).trace(), final(hw).trace()),
        leaf_events(old(reg).clocks@, ch@, unwalk_op(disable), since(old(hw).trace(), final(hw).trace())),
{
    let ghost op = unwalk_op(disable);
    let ghost t0 = hw.trace();
    let mut i: usize = 0;
    assert(ch@.subrange(0, ch@.len() as int) =~= ch@);
    proof {
        assert(hw.trace().subrange(0, t0.len() as int) =~= t0);
        assert forall|rest: Seq<IoEvent>| leaf_events(reg.clocks@, ch@.subrange(0, ch@.len() as int), op, rest) implies
            #[trigger] leaf_events(old(reg).clocks@, ch@, op, since(t0, hw.trace()) + rest) by {
            assert(since(t0, hw.trace()) + rest =~= rest);
        }
    }
    while i < ch.len()
        invariant
            t0 == old(hw).trace(),
            extends(t0, hw.trace()),
            forall|rest: Seq<IoEvent>| leaf_events(reg.clocks@, ch@.subrange(i as int, ch@.len() as int), op, rest) ==>
                #[trigger] leaf_events(old(reg).clocks@, ch@, op, since(t0, hw.trace()) + rest),
            i <= ch@.len(),
            reg.wf(),
            reg.count == old(reg).count,
            op == unwalk_op(disable),
            forall|k: int| 0 <= k < ch@.len() ==> #[trigger] ch@[k] < MAX_CLOCKS,
            apply_leaf_first(reg.clocks@, ch@.subrange(i as int, ch@.len() as int), op) == apply_leaf_first(
                old(reg).clocks@,
                ch@,
                op,
            ),
        decreases ch@.len() - i,
    {
        let cid = ch[i];
        let ghost before = reg.clocks@;
        let ghost mid = hw.trace();
        proof {
            assert(ch@.subrange(i as int, ch@.len() as int).drop_first() =~= ch@.subrange(i + 1, ch@.len() as int));
            lemma_step_at_shape(before, cid, op);
        }
        match reg.clocks[cid as usize] {
            Some(c) => {
                if disable && c.flags & IS_CRITICAL != 0 {
                    assert(step_at(before, cid, op) =~= before);
                } else {
                    let prev = if disable { c.enable_count } else { c.prepare_count };
                    let mut c2 = c;
                    if disable {
                        c2.enable_count = prev.wrapping_sub(1);
                    } else {
                        c2.prepare_count = prev.wrapping_sub(1);
                    }
                    if prev == 1 {
                        if disable {
                            if c.ops.disable {
                                hw.disable(c.hw);
                                assert(since(mid, hw.trace()) =~= seq![IoEvent::ClkHook(ClkHookKind::Disable, c.hw, true)]);
                            } else if let ClkKind::Gate(g) = &c.ops.kind {
                                gate_disable(hw, g);
                            }
                            c2.flags = c2.flags & !ENABLED;
                        } else {
                            if c.ops.unprepare {
                                hw.unprepare(c.hw);
                                assert(since(mid, hw.trace()) =~= seq![IoEvent::ClkHook(ClkHookKind::Unprepare, c.hw, true)]);
                            }
                            c2.flags = c2.flags & !PREPARED;
                        }
                    }
                    proof {
                        lemma_num_registered_update(reg.clocks@, cid as int, Some(c2));
                    }
                    reg.clocks.set(cid as usize, Some(c2));
                    assert(reg.clocks@ =~= step_at(before, cid, op));
                }
            },
            None => {
                assert(step_at(before, cid, op) =~= before);
            },
        }
        proof {
            let seg = since(mid, hw.trace());
            if hw.trace() == mid {
                assert(seg =~= Seq::<IoEvent>::empty());
            }
            assert(hw.trace() =~= mid + seg);
            assert(hw.trace().subrange(0, t0.len() as int) =~= t0);
            assert(slot_events(before, cid, op, seg));
            assert forall|rest: Seq<IoEvent>| leaf_events(reg.clocks@, ch@.subrange(i + 1, ch@.len() as int), op, rest) implies
                #[trigger] leaf_events(old(reg).clocks@, ch@, op, since(t0, hw.trace()) + rest) by {
                let sub = ch@.subrange(i as int, ch@.len() as int);
                lemma_split(seg, rest);
                assert(sub[0] == cid);
                assert(leaf_events(before, sub, op, seg + rest));
                assert(since(t0, mid) + (seg + rest) =~= since(t0, hw.trace()) + rest);
            }
        }
        i = i + 1;
    }
    assert(ch@.subrange(i as int, ch@.len() as int) =~= Seq::<u32>::empty());
    proof {
        assert(since(t0, hw.trace()) + Seq::<IoEvent>::empty() =~= since(t0, hw.trace()));
        assert(leaf_events(reg.clocks@, ch@.subrange(i as int, ch@.len() as int), op, Seq::<IoEvent>::empty()));
    }
}

/// Prepare a clock and its ancestors, root first. Nestable.
///
/// The first prepare of a clock runs its prepare hook and marks it
/// [`PREPARED`]. A chain that ends in an empty slot (the clock itself, or
/// an unregistered parent) is refused with `NotFound` and nothing changes.
pub fn clk_prepare<H: ClkHardware>(reg: &mut ClkRegistry, hw: &mut H, id: ClkId) -> (r: Result<(), ClkError>)
    requires
        old(reg).wf(),
        parent_ok(id.0),
    ensures
        final(reg).wf(),
        final(reg).count == old(reg).count,
        chain_broken(old(reg).clocks@, walk_chain(old(reg).clocks@, id.0)) ==> r == Err::<(), ClkError>(ClkError::NotFound)
            && final(reg).clocks@ == old(reg).clocks@,
        r is Ok ==> final(reg).clocks@ == apply_root_first(old(reg).clocks@, walk_chain(old(reg).clocks@, id.0), ClkStep::Prepare),
        r is Err && !chain_broken(old(reg).clocks@, walk_chain(old(reg).clocks@, id.0)) ==> exists|k: int|
            0 <= k < walk_chain(old(reg).clocks@, id.0).len() && #[trigger] stopped_at(
                old(reg).clocks@,
                walk_chain(old(reg).clocks@, id.0),
                k,
                ClkStep::Prepare,
                ClkStep::PrepareCount,
            ) == final(reg).clocks@ && failed_events(old(reg).clocks@, walk_chain(old(reg).clocks@, id.0), k, false,
                since(old(hw).trace(), final(hw).trace())),
        extends(old(hw).trace(), final(hw).trace()),
        chain_broken(old(reg).clocks@, walk_chain(old(reg).clocks@, id.0)) ==> final(hw).trace() == old(hw).trace(),
        r is Ok ==> root_events(old(reg).clocks@, walk_chain(old(reg).clocks@, id.0), ClkStep::Prepare, since(old(hw).trace(),
            final(hw).trace())),
        chain_without_prepare_hook(old(reg).clocks@, walk_chain(old(reg).clocks@, id.0)) && !chain_broken(
            old(reg).clocks@,
            walk_chain(old(reg).clocks@, id.0),
        ) ==> r is Ok,
{
    let ch = build_chain(reg, id);
    proof {
        lemma_chain_shape(reg.clocks@, id.0, (MAX_CLK_DEPTH + 1) as nat);
    }
    walk_root_first(reg, hw, &ch, false)
}

/// Undo `clk_prepare`: leaf first, each clock's count decreases (wrapping),
/// and the last unprepare runs the unprepare hook and clears [`PREPARED`].
/// Missing clocks are skipped.
pub fn clk_unprepare<H: ClkHardware>(reg: &mut ClkRegistry, hw: &mut H, id: ClkId)
    requires
        old(reg).wf(),
        parent_ok(id.0),
    ensures
        final(reg).wf(),
        final(reg).count == old(reg).count,
        final(reg).clocks@ == apply_leaf_first(old(reg).clocks@, walk_chain(old(reg).clocks@, id.0), ClkStep::Unprepare),
        extends(old(hw).trace(), final(hw).trace()),
        leaf_events(old(reg).clocks@, walk_chain(old(reg).clocks@, id.0), ClkStep::Unprepare, since(old(hw).trace(),
            final(hw).trace())),
{
    let ch = build_chain(reg, id);
    proof {
        lemma_chain_shape(reg.clocks@, id.0, (MAX_CLK_DEPTH + 1) as nat);
    }
    walk_leaf_first(reg, hw, &ch, false)
}

/// Enable a prepared clock and its ancestors, root first. Nestable.
///
/// Refused with `NotFound` when the slot is empty (or out of range) and
/// with `NotPrepared` when the clock's prepare count is 0.
pub fn clk_enable<H: ClkHardware>(reg: &mut ClkRegistry, hw: &mut H, id: ClkId) -> (r: Result<(), ClkError>)
    requires
        old(reg).wf(),
    ensures
        final(reg).wf(),
        final(reg).count == old(reg).count,
        slot(old(reg).clocks@, id.0) is None ==> r == Err::<(), ClkError>(ClkError::NotFound) && final(reg).clocks@ == old(reg).clocks@,
        slot(old(reg).clocks@, id.0) matches Some(c) && c.prepare_count == 0 ==> r == Err::<(), ClkError>(ClkError::NotPrepared)
            && final(reg).clocks@ == old(reg).clocks@,
        r is Ok ==> final(reg).clocks@ == apply_root_first(old(reg).clocks@, walk_chain(old(reg).clocks@, id.0), ClkStep::Enable),
        r is Err ==> (final(reg).clocks@ == old(reg).clocks@ && final(hw).trace() == old(hw).trace()) || exists|k: int|
            0 <= k < walk_chain(old(reg).clocks@, id.0).len() && #[trigger] stopped_at(
                old(reg).clocks@,
                walk_chain(old(reg).clocks@, id.0),
                k,
                ClkStep::Enable,
                ClkStep::EnableCount,
            ) == final(reg).clocks@ && failed_events(old(reg).clocks@, walk_chain(old(reg).clocks@, id.0), k, true,
                since(old(hw).trace(), final(hw).trace())),
        extends(old(hw).trace(), final(hw).trace()),
        slot(old(reg).clocks@, id.0) is None || slot(old(reg).clocks@, id.0).unwrap().prepare_count == 0
            ==> final(hw).trace() == old(hw).trace(),
        r is Ok ==> root_events(old(reg).clocks@, walk_chain(old(reg).clocks@, id.0), ClkStep::Enable, since(old(hw).trace(),
            final(hw).trace())),
        slot(old(reg).clocks@, id.0) matches Some(c) && c.prepare_count != 0 && chain_without_enable_hook(
            old(reg).clocks@,
            walk_chain(old(reg).clocks@, id.0),
        ) && !chain_broken(old(reg).clocks@, walk_chain(old(reg).clocks@, id.0)) ==> r is Ok,
{
    proof {
        assert(hw.trace().subrange(0, hw.trace().len() as int) =~= hw.trace());
    }
    if id.0 as usize >= MAX_CLOCKS {
        return Err(ClkError::NotFound);
    }
    match &reg.clocks[id.0 as usize] {
        None => {
            return Err(ClkError::NotFound);
        },
        Some(c) => {
            if c.prepare_count == 0 {
                return Err(ClkError::NotPrepared);
            }
        },
    }
    let ch = build_chain(reg, id);
    proof {
        lemma_chain_shape(reg.clocks@, id.0, (MAX_CLK_DEPTH + 1) as nat);
    }
    walk_root_first(reg, hw, &ch, true)
}

/// Disable a clock and its ancestors, leaf first. Critical clocks are
/// skipped; for the others the count decreases (wrapping), and the last
/// disable runs the disable hook and clears [`ENABLED`].
pub fn clk_disable<H: ClkHardware>(reg: &mut ClkRegistry, hw: &mut H, id: ClkId)
    requires
        old(reg).wf(),
        parent_ok(id.0),
    ensures
        final(reg).wf(),
        final(reg).count == old(reg).count,
        final(reg).clocks@ == apply_leaf_first(old(reg).clocks@, walk_chain(old(reg).clocks@, id.0), ClkStep::Disable),
        extends(old(hw).trace(), final(hw).trace()),
        leaf_events(old(reg).clocks@, walk_chain(old(reg).clocks@, id.0), ClkStep::Disable, since(old(hw).trace(),
            final(hw).trace())),
{
    let ch = build_chain(reg, id);
    proof {
        lemma_chain_shape(reg.clocks@, id.0, (MAX_CLK_DEPTH + 1) as nat);
    }
    walk_leaf_first(reg, hw, &ch, true)
}


/// Whether `new_rate` is a rate a clock of this kind recalculates from
/// parent rate `prate` (other kinds keep `old_rate`). A divider's rate
/// depends on the divisor its register holds.
pub open spec fn recalc_ok(kind: ClkKind, prate: u64, old_rate: u64, new_rate: u64) -> bool {
    match kind {
        ClkKind::FixedFactor { mult, div } => new_rate == ff_rate(prate, mult, div),
        ClkKind::Divider(d) => exists|raw: u32| new_rate == divided_rate(prate, divider_div(d, raw)),
        _ => new_rate == old_rate,
    }
}

/// Recalculates a clock's rate after its parent rate became `prate`.
fn recalc_rate<H: ClkHardware>(hw: &mut H, kind: &ClkKind, prate: u64, old_rate: u64) -> (r: u64)
    requires
        kind_ok(*kind),
    ensures
        recalc_ok(*kind, prate, old_rate, r),
        extends(old(hw).trace(), final(hw).trace()),
        !(*kind is Divider) ==> final(hw).trace() == old(hw).trace(),
        *kind matches ClkKind::Divider(d) ==> exists|raw: u32| #[trigger] final(hw).trace() == old(hw).trace().push(IoEvent::Read(d.reg, raw))
            && r == divided_rate(prate, divider_div(d, raw)),
{
    proof {
        assert(hw.trace().subrange(0, hw.trace().len() as int) =~= hw.trace());
    }
    match kind {
        ClkKind::FixedFactor { mult, div } => fixed_factor_get_rate(prate, *mult, *div),
        ClkKind::Divider(d) => {
            let raw = hw.read_reg(d.reg);
            let div = divider_get_div(d, raw);
            proof {
                assert(hw.trace().subrange(0, old(hw).trace().len() as int) =~= old(hw).trace());
            }
            if div == 0 {
                0
            } else {
                prate / (div as u64)
            }
        },
        _ => old_rate,
    }
}

pub proof fn lemma_free_slot_exists(s: Seq<Option<ClkCore>>)
    requires
        num_registered(s) < s.len(),
    ensures
        exists|i: int| 0 <= i < s.len() && #[trigger] s[i] is None,
    decreases s.len(),
{
    if s.last() is Some {
        lemma_free_slot_exists(s.drop_last());
        let i = choose|i: int| 0 <= i < s.drop_last().len() && #[trigger] s.drop_last()[i] is None;
        assert(s[i] is None);
    } else {
        assert(s[s.len() - 1] is None);
    }
}

/// What `clk_register` stores for `clk`: the depth below its parent and,
/// for a clock whose rate is not fixed, the recalculated rate.
pub open spec fn registered_as(old_clocks: Seq<Option<ClkCore>>, clk: ClkCore, c: ClkCore) -> bool {
    &&& c.name == clk.name && c.hw == clk.hw && c.ops == clk.ops && c.flags == clk.flags
    &&& c.parent == clk.parent
    &&& c.ref_count == clk.ref_count && c.prepare_count == clk.prepare_count && c.enable_count == clk.enable_count
    &&& c.depth == if clk.parent == NO_PARENT { clk.depth } else { (slot(old_clocks, clk.parent).unwrap().depth + 1) as u32 }
    &&& if clk.flags & FIXED_RATE != 0 {
        c.rate == clk.rate
    } else {
        recalc_ok(clk.ops.kind, parent_rate_spec(old_clocks, clk.parent), clk.rate, c.rate)
    }
}

/// A parent whose depth leaves room for one more level.
pub open spec fn parent_depth_ok(clocks: Seq<Option<ClkCore>>, parent: u32) -> bool {
    parent != NO_PARENT && slot(clocks, parent) is Some ==> slot(clocks, parent).unwrap().depth < 0xFFFF_FFFF
}

/// Why registering `clk` is refused, if it is: a full registry, a missing
/// parent, or a tree deeper than [`MAX_CLK_DEPTH`].
pub open spec fn register_error(clocks: Seq<Option<ClkCore>>, count: usize, clk: ClkCore) -> Option<ClkError> {
    if count >= MAX_CLOCKS {
        Some(ClkError::RegistryFull)
    } else if clk.parent != NO_PARENT && slot(clocks, clk.parent) is None {
        Some(ClkError::NoParent)
    } else if clk.parent != NO_PARENT && slot(clocks, clk.parent).unwrap().depth + 1 > MAX_CLK_DEPTH {
        Some(ClkError::TreeTooDeep)
    } else {
        None
    }
}

/// The outcome of registering `clk`: refused as [`register_error`] says
/// with the registry unchanged, or stored in the first free slot as
/// [`registered_as`] says.
pub open spec fn register_spec(
    old_clocks: Seq<Option<ClkCore>>,
    count: usize,
    clk: ClkCore,
    r: Result<ClkId, ClkError>,
    new_clocks: Seq<Option<ClkCore>>,
) -> bool {
    match register_error(old_clocks, count, clk) {
        Some(e) => r == Err::<ClkId, ClkError>(e) && new_clocks == old_clocks,
        None => r matches Ok(id) && {
            &&& id.0 < MAX_CLOCKS
            &&& old_clocks[id.0 as int] is None
            &&& forall|j: int| 0 <= j < id.0 ==> #[trigger] old_clocks[j] is Some
            &&& new_clocks == old_clocks.update(id.0 as int, new_clocks[id.0 as int])
            &&& (new_clocks[id.0 as int] matches Some(c) && registered_as(old_clocks, clk, c))
        },
    }
}

/// Register a new clock in the first free slot.
///
/// Refused with `RegistryFull` when every slot is taken, `NoParent` when
/// the parent slot is empty, and `TreeTooDeep` when the clock would sit
/// deeper than [`MAX_CLK_DEPTH`].
pub fn clk_register<H: ClkHardware>(reg: &mut ClkRegistry, hw: &mut H, clk: ClkCore) -> (r: Result<ClkId, ClkError>)
    requires
        old(reg).wf(),
        parent_ok(clk.parent),
        kind_ok(clk.ops.kind),
        parent_depth_ok(old(reg).clocks@, clk.parent),
    ensures
        final(reg).wf(),
        register_spec(old(reg).clocks@, old(reg).count, clk, r, final(reg).clocks@),
        extends(old(hw).trace(), final(hw).trace()),
        !(clk.ops.kind is Divider) ==> final(hw).trace() == old(hw).trace(),
{
    proof {
        assert(hw.trace().subrange(0, hw.trace().len() as int) =~= hw.trace());
    }
    if reg.count >= MAX_CLOCKS {
        return Err(ClkError::RegistryFull);
    }
    let mut node = clk;
    let parent_id = node.parent;
    let mut parent_rate_init: u64 = 0;
    if parent_id != NO_PARENT {
        match &reg.clocks[parent_id as usize] {
            Some(p) => {
                node.depth = p.depth + 1;
                parent_rate_init = p.rate;
            },
            None => {
                return Err(ClkError::NoParent);
            },
        }
        if node.depth > MAX_CLK_DEPTH {
            return Err(ClkError::TreeTooDeep);
        }
    }
    proof {
        lemma_num_registered_bound(reg.clocks@);
        lemma_free_slot_exists(reg.clocks@);
    }
    let mut i: usize = 0;
    while i < MAX_CLOCKS
        invariant
            reg.wf(),
            reg.clocks@ == old(reg).clocks@,
            reg.count == old(reg).count,
            reg.count < MAX_CLOCKS,
            i <= MAX_CLOCKS,
            forall|j: int| 0 <= j < i ==> #[trigger] reg.clocks@[j] is Some,
            exists|j: int| 0 <= j < MAX_CLOCKS && #[trigger] reg.clocks@[j] is None,
            parent_ok(node.parent),
            kind_ok(node.ops.kind),
            parent_id == node.parent,
            parent_id == clk.parent,
            parent_id != NO_PARENT ==> slot(old(reg).clocks@, parent_id) is Some && slot(old(reg).clocks@, parent_id).unwrap().depth
                + 1 <= MAX_CLK_DEPTH,
            parent_rate_init == parent_rate_spec(old(reg).clocks@, node.parent),
            node.depth == if parent_id == NO_PARENT { clk.depth } else { (slot(old(reg).clocks@, parent_id).unwrap().depth + 1) as u32 },
            node.name == clk.name && node.hw == clk.hw && node.ops == clk.ops && node.flags == clk.flags,
            node.rate == clk.rate && node.ref_count == clk.ref_count,
            node.prepare_count == clk.prepare_count && node.enable_count == clk.enable_count,
            hw.trace() == old(hw).trace(),
        decreases MAX_CLOCKS - i,
    {
        if reg.clocks[i].is_none() {
            proof {
                assert(hw.trace().subrange(0, hw.trace().len() as int) =~= hw.trace());
            }
            if node.flags & FIXED_RATE == 0 {
                node.rate = recalc_rate(hw, &node.ops.kind, parent_rate_init, node.rate);
            }
            proof {
                lemma_num_registered_update(reg.clocks@, i as int, Some(node));
            }
            reg.clocks.set(i, Some(node));
            reg.count = reg.count + 1;
            return Ok(ClkId(i as u32));
        }
        i = i + 1;
    }
    Err(ClkError::RegistryFull)
}

/// Unregister a clock: refused with `InvalidId` out of range, `NotFound`
/// for an empty slot and `StillEnabled` while it is enabled.
pub fn clk_unregister(reg: &mut ClkRegistry, id: ClkId) -> (r: Result<(), ClkError>)
    requires
        old(reg).wf(),
    ensures
        final(reg).wf(),
        id.0 >= MAX_CLOCKS ==> r == Err::<(), ClkError>(ClkError::InvalidId),
        id.0 < MAX_CLOCKS && old(reg).clocks@[id.0 as int] is None ==> r == Err::<(), ClkError>(ClkError::NotFound),
        id.0 < MAX_CLOCKS && (old(reg).clocks@[id.0 as int] matches Some(c) && c.enable_count > 0) ==> r == Err::<(), ClkError>(
            ClkError::StillEnabled,
        ),
        r is Err ==> final(reg).clocks@ == old(reg).clocks@,
        r is Ok <==> (id.0 < MAX_CLOCKS && (old(reg).clocks@[id.0 as int] matches Some(c) && c.enable_count <= 0)),
        r is Ok ==> final(reg).clocks@ == old(reg).clocks@.update(id.0 as int, None) && final(reg).count == old(reg).count - 1,
{
    let idx = id.0 as usize;
    if idx >= MAX_CLOCKS {
        return Err(ClkError::InvalidId);
    }
    match &reg.clocks[idx] {
        None => Err(ClkError::NotFound),
        Some(c) => {
            if c.enable_count > 0 {
                return Err(ClkError::StillEnabled);
            }
            proof {
                lemma_num_registered_update(reg.clocks@, idx as int, None);
            }
            reg.clocks.set(idx, None);
            reg.count = reg.count - 1;
            Ok(())
        },
    }
}

/// Look up a clock by name and take a reference (the first slot whose
/// clock answers to `name` gains one `ref_count`).
pub fn clk_get(reg: &mut ClkRegistry, name: &str) -> (r: Option<ClkId>)
    requires
        old(reg).wf(),
    ensures
        final(reg).wf(),
        final(reg).count == old(reg).count,
        r is None ==> final(reg).clocks@ == old(reg).clocks@ && forall|j: int| 0 <= j < MAX_CLOCKS && #[trigger] old(reg).clocks@[j] is Some
            ==> !clk_name_matches(old(reg).clocks@[j].unwrap(), name),
        r matches Some(id) ==> {
            &&& id.0 < MAX_CLOCKS
            &&& (old(reg).clocks@[id.0 as int] matches Some(c) && clk_name_matches(c, name))
            &&& forall|j: int| 0 <= j < id.0 && #[trigger] old(reg).clocks@[j] is Some ==> !clk_name_matches(
                old(reg).clocks@[j].unwrap(),
                name,
            )
            &&& final(reg).clocks@ == old(reg).clocks@.update(
                id.0 as int,
                Some(
                    ClkCore {
                        ref_count: i32_specs::wrapping_add(old(reg).clocks@[id.0 as int].unwrap().ref_count, 1),
                        ..old(reg).clocks@[id.0 as int].unwrap()
                    },
                ),
            )
        },
{
    let mut i: usize = 0;
    while i < MAX_CLOCKS
        invariant
            reg.wf(),
            reg.clocks@ == old(reg).clocks@,
            reg.count == old(reg).count,
            i <= MAX_CLOCKS,
            forall|j: int| 0 <= j < i && #[trigger] reg.clocks@[j] is Some ==> !clk_name_matches(reg.clocks@[j].unwrap(), name),
        decreases MAX_CLOCKS - i,
    {
        if let Some(c) = &reg.clocks[i] {
            let n = c.name_str();
            if str_eq(n, name) {
                proof {
                    lemma_str_bytes_eq(n, name);
                }
                let mut c2 = *c;
                c2.ref_count = c.ref_count.wrapping_add(1);
                proof {
                    lemma_num_registered_update(reg.clocks@, i as int, Some(c2));
                }
                reg.clocks.set(i, Some(c2));
                return Some(ClkId(i as u32));
            }
            proof {
                lemma_str_bytes_eq(n, name);
            }
        }
        i = i + 1;
    }
    None
}

/// Release a reference taken with [`clk_get`].
pub fn clk_put(reg: &mut ClkRegistry, id: ClkId)
    requires
        old(reg).wf(),
        slot(old(reg).clocks@, id.0) matches Some(c) ==> c.ref_count > 0,
    ensures
        final(reg).wf(),
        final(reg).count == old(reg).count,
        slot(old(reg).clocks@, id.0) is None ==> final(reg).clocks@ == old(reg).clocks@,
        slot(old(reg).clocks@, id.0) matches Some(c) ==> final(reg).clocks@ == old(reg).clocks@.update(
            id.0 as int,
            Some(ClkCore { ref_count: (c.ref_count - 1) as i32, ..c }),
        ),
{
    let idx = id.0 as usize;
    if idx < MAX_CLOCKS {
        if let Some(c) = &reg.clocks[idx] {
            let mut c2 = *c;
            c2.ref_count = c.ref_count - 1;
            proof {
                lemma_num_registered_update(reg.clocks@, idx as int, Some(c2));
            }
            reg.clocks.set(idx, Some(c2));
        }
    }
}

/// The rate a clock reports: a fixed-factor clock computes it from its
/// parent's rate, the others return their stored rate; 0 for an empty slot.
pub open spec fn clk_rate_spec(clocks: Seq<Option<ClkCore>>, id: u32) -> u64 {
    match slot(clocks, id) {
        None => 0,
        Some(c) => match c.ops.kind {
            ClkKind::FixedFactor { mult, div } => ff_rate(parent_rate_spec(clocks, c.parent), mult, div),
            _ => c.rate,
        },
    }
}

/// The clock registered under `id`, or `NotFound`.
pub(crate) fn reg_get(reg: &ClkRegistry, id: ClkId) -> (r: Result<ClkCore, ClkError>)
    requires
        reg.wf(),
    ensures
        match slot(reg.clocks@, id.0) {
            Some(c) => r == Ok::<ClkCore, ClkError>(c),
            None => r == Err::<ClkCore, ClkError>(ClkError::NotFound),
        },
{
    if id.0 as usize >= MAX_CLOCKS {
        return Err(ClkError::NotFound);
    }
    match &reg.clocks[id.0 as usize] {
        None => Err(ClkError::NotFound),
        Some(c) => Ok(*c),
    }
}

pub(crate) fn parent_rate(reg: &ClkRegistry, parent: u32) -> (r: u64)
    requires
        reg.wf(),
    ensures
        r == parent_rate_spec(reg.clocks@, parent),
{
    if parent == NO_PARENT || parent as usize >= MAX_CLOCKS {
        return 0;
    }
    match &reg.clocks[parent as usize] {
        Some(p) => p.rate,
        None => 0,
    }
}

/// Return the current rate of the clock in Hz.
pub fn clk_get_rate(reg: &ClkRegistry, id: ClkId) -> (r: u64)
    requires
        reg.wf(),
    ensures
        r == clk_rate_spec(reg.clocks@, id.0),
{
    if id.0 as usize >= MAX_CLOCKS {
        return 0;
    }
    match &reg.clocks[id.0 as usize] {
        None => 0,
        Some(c) => match c.ops.kind {
            ClkKind::FixedFactor { mult, div } => fixed_factor_get_rate(parent_rate(reg, c.parent), mult, div),
            _ => c.rate,
        },
    }
}

/// The rate a clock of this kind rounds `rate` to, given its parent rate.
pub open spec fn round_spec(kind: ClkKind, rate: u64, prate: u64) -> u64 {
    match kind {
        ClkKind::FixedFactor { mult, div } => ff_rate(prate, mult, div),
        ClkKind::Divider(d) => divider_round(d, rate, prate),
        _ => rate,
    }
}

pub(crate) fn round_for(kind: &ClkKind, rate: u64, prate: u64) -> (r: u64)
    requires
        kind_ok(*kind),
    ensures
        r == round_spec(*kind, rate, prate),
{
    match kind {
        ClkKind::FixedFactor { mult, div } => fixed_factor_get_rate(prate, *mult, *div),
        ClkKind::Divider(d) => divider_round_rate(d, rate, prate),
        _ => rate,
    }
}

/// Round `rate_hz` to the nearest rate this clock can produce (an empty
/// slot leaves it as it is).
pub fn clk_round_rate(reg: &ClkRegistry, id: ClkId, rate_hz: u64) -> (r: u64)
    requires
        reg.wf(),
    ensures
        slot(reg.clocks@, id.0) is None ==> r == rate_hz,
        slot(reg.clocks@, id.0) matches Some(c) ==> r == round_spec(c.ops.kind, rate_hz, parent_rate_spec(reg.clocks@, c.parent)),
{
    if id.0 as usize >= MAX_CLOCKS {
        return rate_hz;
    }
    match &reg.clocks[id.0 as usize] {
        None => rate_hz,
        Some(c) => {
            proof {
                assert(clk_ok(*c));
            }
            let p = parent_rate(reg, c.parent);
            round_for(&c.ops.kind, rate_hz, p)
        },
    }
}

} // verus!
