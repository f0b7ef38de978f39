//! Rate changes: `clk_set_rate` and the propagation of a new rate down the
//! clock tree.
//!
//! A divider child recalculates its rate from the divisor its register
//! holds, which only the hardware knows. The propagation is therefore
//! specified over a *tape*: the sequence of raw register values read, in
//! the order the walk reads them. Whatever the registers hold, the final
//! registry is the one [`propagate_spec`] computes from some tape.
use vstd::prelude::*;
use crate::clk::clk_flags::FIXED_RATE;
use crate::clk::framework::{
    ClkCore, ClkError, ClkHardware, ClkId, ClkRegistry, MAX_CLOCKS, clk_ok, lemma_num_registered_update,
    parent_rate, parent_rate_spec, reg_get, round_for, round_spec, slot,
};
use crate::clk::mmio::{extends, lemma_extends_trans, rmw_events, rmw_reg, since};
use crate::clk::provider::{
    ClkKind, DividerHw, best_div, divided_rate, divider_bits, divider_div, divider_field_bits, divider_get_div, divider_round,
    ff_rate, fixed_factor_get_rate, kind_ok,
};

verus! {

/// Most children a single propagation step updates.
pub const MAX_PROPAGATE_CHILDREN: usize = 32;

/// The rate a clock recalculates from parent rate `prate` when its divider
/// register (if it has one) reads `raw`; clocks without a recalculation
/// keep `old_rate`.
pub open spec fn recalc_with(kind: ClkKind, prate: u64, old_rate: u64, raw: u32) -> u64 {
    match kind {
        ClkKind::FixedFactor { mult, div } => ff_rate(prate, mult, div),
        ClkKind::Divider(d) => divided_rate(prate, divider_div(d, raw)),
        _ => old_rate,
    }
}

/// One scan of the registry for the children of `pid`, from slot `i` on:
/// each child (up to [`MAX_PROPAGATE_CHILDREN`]) gets its recalculated
/// rate and is recorded with it. Divider children take their raw register
/// value from the front of `tape`. Returns the registry, the recorded
/// children, the rest of the tape, and whether the tape sufficed.
pub open spec fn scan_children(
    clocks: Seq<Option<ClkCore>>,
    pid: u32,
    prate: u64,
    i: nat,
    kids: Seq<(u32, u64)>,
    tape: Seq<u32>,
) -> (Seq<Option<ClkCore>>, Seq<(u32, u64)>, Seq<u32>, bool)
    decreases MAX_CLOCKS - i,
{
    if i >= clocks.len() || i >= MAX_CLOCKS {
        (clocks, kids, tape, true)
    } else {
        match clocks[i as int] {
            Some(c) => if c.parent == pid && kids.len() < MAX_PROPAGATE_CHILDREN {
                let reads = c.ops.kind is Divider;
                let ok = !reads || tape.len() > 0;
                let raw: u32 = if reads && tape.len() > 0 { tape[0] } else { 0 };
                let rest = if reads && tape.len() > 0 { tape.drop_first() } else { tape };
                let nr = recalc_with(c.ops.kind, prate, c.rate, raw);
                let r = scan_children(
                    clocks.update(i as int, Some(ClkCore { rate: nr, ..c })),
                    pid,
                    prate,
                    i + 1,
                    kids.push((i as u32, nr)),
                    rest,
                );
                (r.0, r.1, r.2, r.3 && ok)
            } else {
                scan_children(clocks, pid, prate, i + 1, kids, tape)
            },
            None => scan_children(clocks, pid, prate, i + 1, kids, tape),
        }
    }
}

/// Propagation of rate `prate` from clock `pid`: scan its children, then
/// propagate each child's new rate in turn, at most `fuel` levels deep.
/// Returns the registry, the rest of the tape, and whether it sufficed.
pub open spec fn propagate_spec(clocks: Seq<Option<ClkCore>>, pid: u32, prate: u64, fuel: nat, tape: Seq<u32>) -> (
    Seq<Option<ClkCore>>,
    Seq<u32>,
    bool,
)
    decreases fuel, 0nat, 0nat,
{
    if fuel == 0 {
        (clocks, tape, true)
    } else {
        let s = scan_children(clocks, pid, prate, 0, seq![], tape);
        let r = propagate_kids(s.0, s.1, 0, (fuel - 1) as nat, s.2);
        (r.0, r.1, r.2 && s.3)
    }
}

/// Propagation into the recorded children `kids[j..]`, one after another.
pub open spec fn propagate_kids(clocks: Seq<Option<ClkCore>>, kids: Seq<(u32, u64)>, j: nat, fuel: nat, tape: Seq<u32>) -> (
    Seq<Option<ClkCore>>,
    Seq<u32>,
    bool,
)
    decreases fuel, 1nat, kids.len() - j,
{
    if j >= kids.len() {
        (clocks, tape, true)
    } else {
        let r = propagate_spec(clocks, kids[j as int].0, kids[j as int].1, fuel, tape);
        let q = propagate_kids(r.0, kids, j + 1, fuel, r.1);
        (q.0, q.1, q.2 && r.2)
    }
}

/// Only the rates of registered clocks differ between two registries.
pub open spec fn same_but_rates(a: Seq<Option<ClkCore>>, b: Seq<Option<ClkCore>>) -> bool {
    &&& a.len() == b.len()
    &&& forall|i: int|
        0 <= i < a.len() ==> (#[trigger] a[i] is Some <==> b[i] is Some) && (a[i] is Some ==> b[i] == Some(
            ClkCore { rate: b[i].unwrap().rate, ..a[i].unwrap() },
        ))
}

/// Propagates `prate` from `pid` to its descendants; returns the raw divider
/// register values read, in order.
fn clk_propagate_rate<H: ClkHardware>(reg: &mut ClkRegistry, hw: &mut H, pid: u32, prate: u64, fuel: usize) -> (tape: Ghost<Seq<u32>>)
    requires
        old(reg).wf(),
    ensures
        final(reg).wf(),
        final(reg).count == old(reg).count,
        forall|rest: Seq<u32>| #[trigger]
            propagate_spec(old(reg).clocks@, pid, prate, fuel as nat, tape@ + rest) == (final(reg).clocks@, rest, true),
        extends(old(hw).trace(), final(hw).trace()),
    decreases fuel,
{
    proof {
        assert(hw.trace().subrange(0, hw.trace().len() as int) =~= hw.trace());
    }
    if fuel == 0 {
        assert forall|rest: Seq<u32>| #[trigger]
            propagate_spec(old(reg).clocks@, pid, prate, fuel as nat, seq![] + rest) == (reg.clocks@, rest, true) by {
            assert(seq![] + rest =~= rest);
        }
        let g: Ghost<Seq<u32>> = Ghost(Seq::empty());
        return g;
    }
    let ghost c0 = reg.clocks@;
    let ghost mut t0: Seq<u32> = seq![];
    let mut kids: Vec<(u32, u64)> = Vec::new();
    let mut i: usize = 0;
    while i < MAX_CLOCKS
        invariant
            reg.wf(),
            reg.count == old(reg).count,
            c0 == old(reg).clocks@,
            i <= MAX_CLOCKS,
            kids.len() <= MAX_PROPAGATE_CHILDREN,
            extends(old(hw).trace(), hw.trace()),
            forall|rest: Seq<u32>| #[trigger]
                scan_children(c0, pid, prate, 0, seq![], t0 + rest) == scan_children(
                    reg.clocks@,
                    pid,
                    prate,
                    i as nat,
                    kids@,
                    rest,
                ),
        decreases MAX_CLOCKS - i,
    {
        let ghost before = reg.clocks@;
        let ghost kids_before = kids@;
        let ghost t_before = t0;
        match &reg.clocks[i] {
            Some(c) => {
                if c.parent == pid && kids.len() < MAX_PROPAGATE_CHILDREN {
                    proof {
                        assert(clk_ok(*c));
                    }
                    let nr: u64 = match &c.ops.kind {
                        ClkKind::FixedFactor { mult, div } => fixed_factor_get_rate(prate, *mult, *div),
                        ClkKind::Divider(d) => {
                            let ghost tb = hw.trace();
                            let raw = hw.read_reg(d.reg);
                            proof {
                                assert(hw.trace().subrange(0, tb.len() as int) =~= tb);
                                lemma_extends_trans(old(hw).trace(), tb, hw.trace());
                            }
                            let div = divider_get_div(d, raw);
                            proof {
                                t0 = t0.push(raw);
                                assert forall|rest: Seq<u32>| #[trigger]
                                    (t_before.push(raw) + rest) == t_before + (seq![raw] + rest) by {
                                    assert(t_before.push(raw) + rest =~= t_before + (seq![raw] + rest));
                                }
                                assert forall|rest: Seq<u32>| #[trigger] (seq![raw] + rest).drop_first() == rest by {
                                    assert((seq![raw] + rest).drop_first() =~= rest);
                                }
                            }
                            if div == 0 {
                                0
                            } else {
                                prate / (div as u64)
                            }
                        },
                        _ => c.rate,
                    };
                    let mut c2 = *c;
                    c2.rate = nr;
                    proof {
                        lemma_num_registered_update(reg.clocks@, i as int, Some(c2));
                    }
                    reg.clocks.set(i, Some(c2));
                    kids.push((i as u32, nr));
                    proof {
                        assert forall|rest: Seq<u32>| #[trigger]
                            scan_children(c0, pid, prate, 0, seq![], t0 + rest) == scan_children(
                                reg.clocks@,
                                pid,
                                prate,
                                (i + 1) as nat,
                                kids@,
                                rest,
                            ) by {
                            if c2.ops.kind is Divider {
                                let raw = t0.last();
                                assert(t0 == t_before.push(raw));
                                assert(t0 + rest == t_before + (seq![raw] + rest));
                                assert((seq![raw] + rest).drop_first() == rest);
                                assert((seq![raw] + rest)[0] == raw);
                                assert(nr == recalc_with(c2.ops.kind, prate, before[i as int].unwrap().rate, raw));
                            } else {
                                assert(t0 == t_before);
                            }
                        }
                    }
                }
            },
            None => {},
        }
        i = i + 1;
    }
    let ghost c1 = reg.clocks@;
    let ghost scanned = t0;
    proof {
        assert forall|rest: Seq<u32>| #[trigger]
            scan_children(c0, pid, prate, 0, seq![], scanned + rest) == (c1, kids@, rest, true) by {
            assert(scan_children(c1, pid, prate, i as nat, kids@, rest) == (c1, kids@, rest, true));
        }
    }
    let ghost mut acc: Seq<u32> = seq![];
    let mut j: usize = 0;
    while j < kids.len()
        invariant
            reg.wf(),
            reg.count == old(reg).count,
            j <= kids.len(),
            fuel > 0,
            extends(old(hw).trace(), hw.trace()),
            forall|rest: Seq<u32>| #[trigger]
                propagate_kids(c1, kids@, 0, (fuel - 1) as nat, acc + rest) == propagate_kids(
                    reg.clocks@,
                    kids@,
                    j as nat,
                    (fuel - 1) as nat,
                    rest,
                ),
        decreases kids.len() - j,
    {
        let (cid, crate_) = kids[j];
        let ghost mid = reg.clocks@;
        let ghost acc_before = acc;
        let ghost tb = hw.trace();
        let tj = clk_propagate_rate(reg, hw, cid, crate_, fuel - 1);
        proof {
            lemma_extends_trans(old(hw).trace(), tb, hw.trace());
            acc = acc + tj@;
            assert forall|rest: Seq<u32>| #[trigger]
                propagate_kids(c1, kids@, 0, (fuel - 1) as nat, acc + rest) == propagate_kids(
                    reg.clocks@,
                    kids@,
                    (j + 1) as nat,
                    (fuel - 1) as nat,
                    rest,
                ) by {
                assert(acc + rest =~= acc_before + (tj@ + rest));
                assert(propagate_spec(mid, cid, crate_, (fuel - 1) as nat, tj@ + rest) == (reg.clocks@, rest, true));
            }
        }
        j = j + 1;
    }
    proof {
        assert forall|rest: Seq<u32>| #[trigger]
            propagate_spec(old(reg).clocks@, pid, prate, fuel as nat, (scanned + acc) + rest) == (reg.clocks@, rest, true) by {
            assert((scanned + acc) + rest =~= scanned + (acc + rest));
            assert(scan_children(c0, pid, prate, 0, seq![], scanned + (acc + rest)) == (c1, kids@, acc + rest, true));
            assert(propagate_kids(reg.clocks@, kids@, j as nat, (fuel - 1) as nat, rest) == (reg.clocks@, rest, true));
            assert(propagate_kids(c1, kids@, 0, (fuel - 1) as nat, acc + rest) == (reg.clocks@, rest, true));
            assert(old(reg).clocks@ == c0);
        }
    }
    let g: Ghost<Seq<u32>> = Ghost(scanned + acc);
    g
}

/// The register bits of a divider's field.
pub open spec fn divider_field_mask(d: DividerHw) -> u32 {
    (((1u32 << d.width) - 1) as u32) << d.shift
}

/// The rate a divider settles on when asked for `rate`.
pub open spec fn divider_set_spec(d: DividerHw, rate: u64, prate: u64) -> u64 {
    (prate / best_div(d, rate, prate)) as u64
}

/// Programs a divider for `rate` and returns the rate it produces.
fn divider_set_rate<H: ClkHardware>(hw: &mut H, d: &DividerHw, rate: u64, parent_rate: u64) -> (r: Result<u64, ClkError>)
    requires
        kind_ok(ClkKind::Divider(*d)),
    ensures
        parent_rate == 0 || rate == 0 ==> r == Err::<u64, ClkError>(ClkError::RateOutOfRange)
            && final(hw).trace() == old(hw).trace(),
        parent_rate != 0 && rate != 0 ==> r == Ok::<u64, ClkError>(divider_set_spec(*d, rate, parent_rate)),
        parent_rate != 0 && rate != 0 ==> exists|cur: u32| final(hw).trace() == old(hw).trace() + #[trigger] rmw_events(
            d.reg,
            cur,
            divider_field_mask(*d),
            divider_bits(*d, best_div(*d, rate, parent_rate) as u32),
        ),
{
    if parent_rate == 0 || rate == 0 {
        return Err(ClkError::RateOutOfRange);
    }
    let q = parent_rate / rate;
    let lo: u64 = if q < 1 { 1 } else { q };
    let w = d.width;
    let sh = d.shift;
    let cap: u64 = 1u64 << w;
    assert(1 <= cap <= 0x8000_0000) by (bit_vector)
        requires
            cap == 1u64 << w,
            w < 32,
    ;
    let best = if lo > cap { cap } else { lo };
    let div = best as u32;
    assert(1u32 << w >= 1) by (bit_vector)
        requires
            w < 32,
    ;
    let mask: u32 = ((1u32 << w) - 1) << sh;
    let bits = divider_field_bits(d, div);
    assert(mask == divider_field_mask(*d));
    assert(best == best_div(*d, rate, parent_rate));
    let _ = rmw_reg(hw, d.reg, mask, bits);
    Ok(parent_rate / best)
}

/// What a rate request yields for a clock of this kind under parent rate
/// `prate`: the rounded rate, which a divider then programs (refused when
/// either rate is 0).
pub open spec fn set_rate_spec(kind: ClkKind, rate: u64, prate: u64) -> Result<u64, ClkError> {
    match kind {
        ClkKind::Divider(d) => {
            let actual = divider_round(d, rate, prate);
            if prate == 0 || actual == 0 {
                Err(ClkError::RateOutOfRange)
            } else {
                Ok(divider_set_spec(d, actual, prate))
            }
        },
        _ => Ok(round_spec(kind, rate, prate)),
    }
}

/// The registry with clock `id` given rate `rate`.
pub open spec fn with_rate(clocks: Seq<Option<ClkCore>>, id: u32, rate: u64) -> Seq<Option<ClkCore>> {
    clocks.update(id as int, Some(ClkCore { rate: rate, ..clocks[id as int].unwrap() }))
}

/// The outcome of `clk_set_rate` on a registry: `NotFound` for an empty
/// slot, `FixedRate` for a fixed-rate clock, else [`set_rate_spec`].
pub open spec fn clk_set_rate_result(clocks: Seq<Option<ClkCore>>, id: u32, rate: u64) -> Result<u64, ClkError> {
    match slot(clocks, id) {
        None => Err(ClkError::NotFound),
        Some(c) => if c.flags & FIXED_RATE != 0 {
            Err(ClkError::FixedRate)
        } else {
            set_rate_spec(c.ops.kind, rate, parent_rate_spec(clocks, c.parent))
        },
    }
}

/// Request a new rate for a clock. The rate is rounded to one the clock
/// can produce, a divider programs its register, the clock stores the
/// resulting rate and the new rate propagates to its descendants.
///
/// On success the registry is the one [`propagate_spec`] gives from the
/// clock with its new rate, for the raw divider values the walk read.
pub fn clk_set_rate<H: ClkHardware>(reg: &mut ClkRegistry, hw: &mut H, id: ClkId, rate_hz: u64) -> (r: Result<u64, ClkError>)
    requires
        old(reg).wf(),
    ensures
        final(reg).wf(),
        final(reg).count == old(reg).count,
        r == clk_set_rate_result(old(reg).clocks@, id.0, rate_hz),
        r is Err ==> final(reg).clocks@ == old(reg).clocks@,
        r matches Ok(set) ==> exists|tape: Seq<u32>| #[trigger]
            propagate_spec(
                with_rate(old(reg).clocks@, id.0, set),
                id.0,
                set,
                MAX_CLOCKS as nat,
                tape,
            ) == (final(reg).clocks@, Seq::<u32>::empty(), true),
        extends(old(hw).trace(), final(hw).trace()),
        r is Err ==> final(hw).trace() == old(hw).trace(),
        r is Ok && (slot(old(reg).clocks@, id.0) matches Some(c) && c.ops.kind is Divider) ==> ({
            let c = slot(old(reg).clocks@, id.0).unwrap();
            let d = c.ops.kind->Divider_0;
            let prate = parent_rate_spec(old(reg).clocks@, c.parent);
            let actual = divider_round(d, rate_hz, prate);
            exists|cur: u32| since(old(hw).trace(), final(hw).trace()).subrange(0, 2) == #[trigger] rmw_events(
                d.reg,
                cur,
                divider_field_mask(d),
                divider_bits(d, best_div(d, actual, prate) as u32),
            )
        }),
{
    proof {
        assert(hw.trace().subrange(0, hw.trace().len() as int) =~= hw.trace());
    }
    let idx = id.0 as usize;
    let c = match reg_get(reg, id) {
        Err(e) => {
            return Err(e);
        },
        Ok(c) => c,
    };
    proof {
        assert(reg.clocks@[idx as int] == Some(c));
        assert(clk_ok(c));
    }
    if c.flags & FIXED_RATE != 0 {
        return Err(ClkError::FixedRate);
    }
    let p = parent_rate(reg, c.parent);
    let actual = round_for(&c.ops.kind, rate_hz, p);
    let ghost t0 = hw.trace();
    let set = match &c.ops.kind {
        ClkKind::Divider(d) => {
            match divider_set_rate(hw, d, actual, p) {
                Ok(v) => v,
                Err(e) => {
                    return Err(e);
                },
            }
        },
        _ => actual,
    };
    let mut c2 = c;
    c2.rate = set;
    proof {
        lemma_num_registered_update(reg.clocks@, idx as int, Some(c2));
    }
    reg.clocks.set(idx, Some(c2));
    let ghost stored = reg.clocks@;
    assert(stored == with_rate(old(reg).clocks@, id.0, set));
    let ghost t1 = hw.trace();
    proof {
        if c.ops.kind is Divider {
            let d = c.ops.kind->Divider_0;
            let cur = choose|cur: u32| t1 == t0 + #[trigger] rmw_events(d.reg, cur, divider_field_mask(d),
                divider_bits(d, best_div(d, actual, p) as u32));
            assert(t1.subrange(0, t0.len() as int) =~= t0);
        } else {
            assert(t1.subrange(0, t0.len() as int) =~= t0);
        }
    }
    let tape = clk_propagate_rate(reg, hw, id.0, set, MAX_CLOCKS);
    proof {
        lemma_extends_trans(t0, t1, hw.trace());
        if c.ops.kind is Divider {
            let d = c.ops.kind->Divider_0;
            let cur = choose|cur: u32| t1 == t0 + #[trigger] rmw_events(d.reg, cur, divider_field_mask(d),
                divider_bits(d, best_div(d, actual, p) as u32));
            let ev = rmw_events(d.reg, cur, divider_field_mask(d), divider_bits(d, best_div(d, actual, p) as u32));
            let f = hw.trace();
            let n = t0.len() as int;
            assert(f.subrange(0, t1.len() as int) == t1);
            assert(t1.len() == n + 2);
            assert(since(t0, f).subrange(0, 2) =~= f.subrange(n, n + 2));
            assert(f.subrange(n, n + 2) =~= t1.subrange(n, n + 2));
            assert(t1.subrange(n, n + 2) =~= ev);
            assert(since(t0, hw.trace()).subrange(0, 2) =~= ev);
        }
    }
    proof {
        assert(tape@ + Seq::<u32>::empty() =~= tape@);
        assert(propagate_spec(stored, id.0, set, MAX_CLOCKS as nat, tape@ + Seq::<u32>::empty()) == (
            reg.clocks@,
            Seq::<u32>::empty(),
            true,
        ));
        assert(propagate_spec(with_rate(old(reg).clocks@, id.0, set), id.0, set, MAX_CLOCKS as nat, tape@) == (
            reg.clocks@,
            Seq::<u32>::empty(),
            true,
        ));
        assert(exists|t: Seq<u32>| #[trigger]
            propagate_spec(with_rate(old(reg).clocks@, id.0, set), id.0, set, MAX_CLOCKS as nat, t) == (
                reg.clocks@,
                Seq::<u32>::empty(),
                true,
            ));
    }
    let r: Result<u64, ClkError> = Ok(set);
    assert(r matches Ok(s) && s == set);
    r
}

} // verus!
