//! Laws of the clock framework's prepare/enable protocol.
use vstd::prelude::*;
use crate::clk::clk_flags::{ENABLED, IS_CRITICAL, PREPARED};
use crate::clk::provider::{DividerHw, DividerType, MuxHw, best_div, divided_rate, divider_bits, divider_div, divider_round, mux_field_mask, mux_index};
use crate::clk::rate::divider_field_mask;
use crate::clk::mmio::rmw_spec;
use crate::clk::framework::{
    ClkCore, ClkStep, apply_leaf_first, apply_root_first, clk_chain, slot, step_at, step_clk,
    walk_chain, MAX_CLK_DEPTH, NO_PARENT,
};

verus! {

/// A clock whose prepared mark agrees with its count, with room to count up.
pub open spec fn prepare_consistent(c: ClkCore) -> bool {
    &&& 0 <= c.prepare_count < 0x7FFF_FFFF
    &&& (c.flags & PREPARED != 0) == (c.prepare_count > 0)
}

/// A non-critical clock whose enabled mark agrees with its count, with room
/// to count up.
pub open spec fn enable_consistent(c: ClkCore) -> bool {
    &&& 0 <= c.enable_count < 0x7FFF_FFFF
    &&& (c.flags & ENABLED != 0) == (c.enable_count > 0)
    &&& c.flags & IS_CRITICAL == 0
}

/// The chain has no repeated clock and every clock on it is registered and
/// satisfies `ok`.
pub open spec fn chain_clean(clocks: Seq<Option<ClkCore>>, ch: Seq<u32>, enable: bool) -> bool {
    &&& ch.no_duplicates()
    &&& forall|k: int| 0 <= k < ch.len() ==> #[trigger] slot(clocks, ch[k]) is Some
    &&& forall|k: int| 0 <= k < ch.len() ==> if enable {
        enable_consistent(#[trigger] slot(clocks, ch[k]).unwrap())
    } else {
        prepare_consistent(#[trigger] slot(clocks, ch[k]).unwrap())
    }
}

proof fn lemma_step_undo(c: ClkCore, enable: bool)
    requires
        if enable { enable_consistent(c) } else { prepare_consistent(c) },
    ensures
        enable ==> step_clk(ClkStep::Disable, step_clk(ClkStep::Enable, c)) == c,
        !enable ==> step_clk(ClkStep::Unprepare, step_clk(ClkStep::Prepare, c)) == c,
{
    let f = c.flags;
    if enable {
        assert((f | ENABLED) & IS_CRITICAL == f & IS_CRITICAL) by (bit_vector);
        assert(f & ENABLED == 0 ==> (f | ENABLED) & !ENABLED == f) by (bit_vector);
    } else {
        assert(f & PREPARED == 0 ==> (f | PREPARED) & !PREPARED == f) by (bit_vector);
    }
}

proof fn lemma_step_at_other(clocks: Seq<Option<ClkCore>>, id: u32, op: ClkStep, h: u32)
    requires
        id != h,
    ensures
        slot(step_at(clocks, id, op), h) == slot(clocks, h),
        step_at(clocks, id, op).len() == clocks.len(),
{
}

proof fn lemma_apply_root_first_other(clocks: Seq<Option<ClkCore>>, ch: Seq<u32>, op: ClkStep, h: u32)
    requires
        !ch.contains(h),
    ensures
        slot(apply_root_first(clocks, ch, op), h) == slot(clocks, h),
        apply_root_first(clocks, ch, op).len() == clocks.len(),
    decreases ch.len(),
{
    if ch.len() > 0 {
        assert(!ch.drop_first().contains(h)) by {
            if ch.drop_first().contains(h) {
                let j = choose|j: int| 0 <= j < ch.drop_first().len() && ch.drop_first()[j] == h;
                assert(ch[j + 1] == h);
            }
        }
        assert(ch[0] != h) by {
            assert(ch.contains(ch[0]) || true);
            if ch[0] == h {
                assert(ch.contains(h));
            }
        }
        lemma_apply_root_first_other(clocks, ch.drop_first(), op, h);
        lemma_step_at_other(apply_root_first(clocks, ch.drop_first(), op), ch[0], op, h);
    }
}

proof fn lemma_undo_chain(clocks: Seq<Option<ClkCore>>, ch: Seq<u32>, enable: bool)
    requires
        chain_clean(clocks, ch, enable),
    ensures
        enable ==> apply_leaf_first(apply_root_first(clocks, ch, ClkStep::Enable), ch, ClkStep::Disable) == clocks,
        !enable ==> apply_leaf_first(apply_root_first(clocks, ch, ClkStep::Prepare), ch, ClkStep::Unprepare) == clocks,
    decreases ch.len(),
{
    let up = if enable { ClkStep::Enable } else { ClkStep::Prepare };
    let down = if enable { ClkStep::Disable } else { ClkStep::Unprepare };
    if ch.len() > 0 {
        let h = ch[0];
        let t = ch.drop_first();
        assert(chain_clean(clocks, t, enable)) by {
            assert forall|k: int| 0 <= k < t.len() implies #[trigger] slot(clocks, t[k]) is Some by {
                assert(t[k] == ch[k + 1]);
            }
            assert forall|k: int| 0 <= k < t.len() implies (if enable {
                enable_consistent(#[trigger] slot(clocks, t[k]).unwrap())
            } else {
                prepare_consistent(slot(clocks, t[k]).unwrap())
            }) by {
                assert(t[k] == ch[k + 1]);
            }
            assert(t.no_duplicates());
        }
        assert(!t.contains(h)) by {
            if t.contains(h) {
                let j = choose|j: int| 0 <= j < t.len() && t[j] == h;
                assert(ch[j + 1] == ch[0]);
            }
        }
        lemma_undo_chain(clocks, t, enable);
        let a = apply_root_first(clocks, t, up);
        lemma_apply_root_first_other(clocks, t, up, h);
        assert(slot(clocks, h) is Some);
        let x = slot(clocks, h).unwrap();
        assert(slot(a, h) == Some(x));
        lemma_step_undo(x, enable);
        let b = step_at(a, h, up);
        assert(step_at(b, h, down) =~= a);
        assert(apply_root_first(clocks, ch, up) == b);
        assert(apply_leaf_first(b, ch, down) == apply_leaf_first(step_at(b, h, down), t, down));
    }
}

proof fn lemma_chain_same_parents(c1: Seq<Option<ClkCore>>, c2: Seq<Option<ClkCore>>, id: u32, fuel: nat)
    requires
        c1.len() == c2.len(),
        forall|i: int| 0 <= i < c1.len() ==> (#[trigger] c1[i] is Some) == (c2[i] is Some),
        forall|i: int| 0 <= i < c1.len() && c1[i] is Some ==> (#[trigger] c1[i]).unwrap().parent == c2[i].unwrap().parent,
    ensures
        clk_chain(c1, id, fuel) == clk_chain(c2, id, fuel),
    decreases fuel,
{
    if fuel > 0 && id != NO_PARENT {
        let n1 = match slot(c1, id) {
            Some(c) => c.parent,
            None => NO_PARENT,
        };
        lemma_chain_same_parents(c1, c2, n1, (fuel - 1) as nat);
    }
}

/// Unprepare undoes prepare: preparing a clock and then unpreparing it
/// leaves every clock of the registry as it was, provided the clocks on
/// its chain are registered, distinct, and have prepared marks that agree
/// with their counts.
pub proof fn law_unprepare_undoes_prepare(clocks: Seq<Option<ClkCore>>, id: u32)
    requires
        chain_clean(clocks, walk_chain(clocks, id), false),
    ensures
        walk_chain(apply_root_first(clocks, walk_chain(clocks, id), ClkStep::Prepare), id) == walk_chain(clocks, id),
        apply_leaf_first(
            apply_root_first(clocks, walk_chain(clocks, id), ClkStep::Prepare),
            walk_chain(apply_root_first(clocks, walk_chain(clocks, id), ClkStep::Prepare), id),
            ClkStep::Unprepare,
        ) == clocks,
{
    let ch = walk_chain(clocks, id);
    let p = apply_root_first(clocks, ch, ClkStep::Prepare);
    crate::clk::framework::lemma_apply_root_first_shape(clocks, ch, ClkStep::Prepare);
    lemma_chain_same_parents(p, clocks, id, (MAX_CLK_DEPTH + 1) as nat);
    lemma_undo_chain(clocks, ch, false);
}

/// Disable undoes enable: enabling a clock and then disabling it leaves
/// every clock of the registry as it was, provided the clocks on its chain
/// are registered, distinct, not critical, and have enabled marks that
/// agree with their counts.
pub proof fn law_disable_undoes_enable(clocks: Seq<Option<ClkCore>>, id: u32)
    requires
        chain_clean(clocks, walk_chain(clocks, id), true),
    ensures
        walk_chain(apply_root_first(clocks, walk_chain(clocks, id), ClkStep::Enable), id) == walk_chain(clocks, id),
        apply_leaf_first(
            apply_root_first(clocks, walk_chain(clocks, id), ClkStep::Enable),
            walk_chain(apply_root_first(clocks, walk_chain(clocks, id), ClkStep::Enable), id),
            ClkStep::Disable,
        ) == clocks,
{
    let ch = walk_chain(clocks, id);
    let p = apply_root_first(clocks, ch, ClkStep::Enable);
    crate::clk::framework::lemma_apply_root_first_shape(clocks, ch, ClkStep::Enable);
    lemma_chain_same_parents(p, clocks, id, (MAX_CLK_DEPTH + 1) as nat);
    lemma_undo_chain(clocks, ch, true);
}

/// Divider rounding never goes below the requested rate: when the parent
/// runs at least as fast as the rate asked for, the divider's rate is at
/// least that rate.
pub proof fn law_divider_round_not_below(d: DividerHw, rate: u64, parent_rate: u64)
    requires
        0 < rate <= parent_rate,
        d.width < 32,
    ensures
        divider_round(d, rate, parent_rate) >= rate,
{
    let q = parent_rate / rate;
    let b = best_div(d, rate, parent_rate);
    let w = d.width;
    assert(1u64 << w >= 1) by (bit_vector)
        requires w < 32;
    assert(q >= 1) by (nonlinear_arith)
        requires q == parent_rate / rate, 0 < rate <= parent_rate;
    assert(1 <= b <= q);
    assert(b * rate <= q * rate) by (nonlinear_arith)
        requires 1 <= b <= q, rate > 0;
    assert(q * rate <= parent_rate) by (nonlinear_arith)
        requires q == parent_rate / rate, rate > 0;
    assert(parent_rate / b >= rate) by (nonlinear_arith)
        requires b * rate <= parent_rate, b >= 1, rate > 0;
}

/// Within the field's range the divider takes the smallest divisor that
/// does not go below the requested rate: its rate is at least `rate`, and
/// the parent rate is below `rate` times the next divisor, so one more
/// step of division would fall below it.
pub proof fn law_divider_round_closest(d: DividerHw, rate: u64, parent_rate: u64)
    requires
        0 < rate <= parent_rate,
        d.width < 32,
        parent_rate / rate <= (1u64 << d.width),
    ensures
        divider_round(d, rate, parent_rate) >= rate,
        parent_rate < (best_div(d, rate, parent_rate) + 1) * rate,
{
    law_divider_round_not_below(d, rate, parent_rate);
    let q = parent_rate / rate;
    assert(q >= 1) by (nonlinear_arith)
        requires q == parent_rate / rate, 0 < rate <= parent_rate;
    assert(best_div(d, rate, parent_rate) == q);
    assert(parent_rate < (q + 1) * rate) by (nonlinear_arith)
        requires q == parent_rate / rate, rate > 0;
}

/// A `w`-bit value written into a field at bit `s` by a read-modify-write
/// reads back from that field unchanged, whatever the register held.
proof fn lemma_field_round_trip(cur: u32, v: u32, s: u32, w: u32)
    by (bit_vector)
    requires
        s + w <= 32,
        w < 32,
        v < (1u32 << w),
    ensures
        (((cur & !((((1u32 << w) - 1) as u32) << s)) | ((v << s) & ((((1u32 << w) - 1) as u32) << s))) >> s) & (((1u32
            << w) - 1) as u32) == v,
{
}

/// Selecting parent `index` of a mux and then reading its field gives
/// `index` back, whatever else the register holds (when the index fits the
/// field and the field fits the register).
pub proof fn law_mux_select_reads_back(m: MuxHw, cur: u32, index: u32)
    requires
        m.shift + m.width <= 32,
        m.width < 32,
        index < (1u32 << m.width),
    ensures
        mux_index(m, rmw_spec(cur, mux_field_mask(m), (index << m.shift) as u32)) == index,
{
    lemma_field_round_trip(cur, index, m.shift as u32, m.width as u32);
}

/// Programming a linear divider for divisor `div` (1 up to 2^width) and
/// decoding its register afterwards gives `div` back, whatever else the
/// register held; the clock then runs at the parent rate over `div`.
pub proof fn law_linear_divider_round_trip(d: DividerHw, cur: u32, div: u32, parent_rate: u64)
    requires
        d.div_type == DividerType::Linear,
        d.shift + d.width <= 32,
        d.width < 32,
        1 <= div,
        div - 1 < (1u32 << d.width),
    ensures
        divider_div(d, rmw_spec(cur, divider_field_mask(d), divider_bits(d, div))) == div,
        divided_rate(parent_rate, divider_div(d, rmw_spec(cur, divider_field_mask(d), divider_bits(d, div))))
            * div <= parent_rate,
        parent_rate < (divided_rate(parent_rate, divider_div(d, rmw_spec(cur, divider_field_mask(d), divider_bits(d,
            div)))) + 1) * div,
{
    let v = (div - 1) as u32;
    lemma_field_round_trip(cur, v, d.shift as u32, d.width as u32);
    assert(divider_div(d, rmw_spec(cur, divider_field_mask(d), divider_bits(d, div))) == div);
    let q = parent_rate / (div as u64);
    assert(q * div <= parent_rate < (q + 1) * div) by (nonlinear_arith)
        requires
            div >= 1,
            q == parent_rate / (div as u64),
    {
        vstd::arithmetic::div_mod::lemma_fundamental_div_mod(parent_rate as int, div as int);
    }
}

} // verus!
