//! Device Tree integration of the clock framework: a table of clock
//! providers keyed by phandle, lookup of consumer clocks, the
//! `assigned-clocks` defaults, and parsing of `clocks` cell streams.
use vstd::prelude::*;
use crate::clk::framework::{
    ClkCore, ClkError, ClkHardware, ClkId, ClkRegistry, MAX_CLOCKS, NO_PARENT, lemma_num_registered_update, parent_ok, slot,
};
use crate::clk::rate::{clk_set_rate, clk_set_rate_result, propagate_spec, with_rate};
use crate::text::{lemma_str_bytes_eq, str_eq};

verus! {

/// Maximum number of registered Device Tree clock providers.
pub const MAX_OF_PROVIDERS: usize = 16;

/// Maximum clock-names entries per node.
pub const MAX_CLK_NAMES: usize = 16;

/// Maximum `assigned-clocks` entries per node.
pub const MAX_ASSIGNED_CLOCKS: usize = 8;

/// Most specifier cells an [`AssignedClkEntry`] holds.
pub const MAX_CLK_ARGS: usize = 8;

/// Turns the specifier cells of a `clocks` entry into a clock. Each clock
/// controller supplies its own.
pub trait ClkResolver {
    /// The clock the specifier `args` names, as a function of the
    /// specifier. Every implementation in this library states it; the
    /// default stands only for implementations made outside it, which
    /// verification does not see.
    closed spec fn resolves(&self, args: Seq<u32>) -> Option<ClkId> {
        None
    }

    /// The clock the specifier `args` names, if any.
    fn resolve(&self, args: &[u32]) -> (r: Option<ClkId>)
        ensures
            r == self.resolves(args@);
}

/// The clock that the provider registered under `phandle` resolves `args`
/// to (none without such a provider).
pub open spec fn clk_lookup<R: ClkResolver>(entries: Seq<Option<OfClkProvider<R>>>, phandle: u32, args: Seq<u32>) -> Option<ClkId> {
    match find_provider(entries, phandle, 0) {
        None => None,
        Some(k) => match entries[k] {
            Some(p) => p.resolver.resolves(args),
            None => None,
        },
    }
}

/// One registered Device Tree clock provider.
#[derive(Clone, Copy)]
pub struct OfClkProvider<R> {
    /// phandle of the provider node.
    pub phandle: u32,
    /// Turns clock specifier args into a clock.
    pub resolver: R,
}

/// The table of Device Tree clock providers.
pub struct ProviderTable<R> {
    pub entries: Vec<Option<OfClkProvider<R>>>,
    pub count: usize,
}

/// Number of occupied entries.
pub open spec fn num_providers<R>(s: Seq<Option<OfClkProvider<R>>>) -> nat
    decreases s.len(),
{
    if s.len() == 0 {
        0
    } else {
        num_providers(s.drop_last()) + if s.last() is Some { 1nat } else { 0nat }
    }
}

proof fn lemma_num_providers_update<R>(s: Seq<Option<OfClkProvider<R>>>, i: int, x: Option<OfClkProvider<R>>)
    requires
        0 <= i < s.len(),
    ensures
        num_providers(s.update(i, x)) + (if s[i] is Some { 1int } else { 0int }) == num_providers(s) + (if x is Some {
            1int
        } else {
            0int
        }),
        num_providers(s) <= s.len(),
    decreases s.len(),
{
    if i == s.len() - 1 {
        assert(s.update(i, x).drop_last() =~= s.drop_last());
        lemma_num_providers_bound(s.drop_last());
    } else {
        assert(s.update(i, x).drop_last() =~= s.drop_last().update(i, x));
        lemma_num_providers_update(s.drop_last(), i, x);
    }
}

proof fn lemma_num_providers_bound<R>(s: Seq<Option<OfClkProvider<R>>>)
    ensures
        num_providers(s) <= s.len(),
    decreases s.len(),
{
    if s.len() > 0 {
        lemma_num_providers_bound(s.drop_last());
    }
}

proof fn lemma_free_entry<R>(s: Seq<Option<OfClkProvider<R>>>)
    requires
        num_providers(s) < s.len(),
    ensures
        exists|i: int| 0 <= i < s.len() && #[trigger] s[i] is None,
    decreases s.len(),
{
    if s.last() is Some {
        lemma_free_entry(s.drop_last());
        let i = choose|i: int| 0 <= i < s.drop_last().len() && #[trigger] s.drop_last()[i] is None;
        assert(s[i] is None);
    } else {
        assert(s[s.len() - 1] is None);
    }
}

proof fn lemma_num_providers_none<R>(s: Seq<Option<OfClkProvider<R>>>)
    requires
        forall|i: int| 0 <= i < s.len() ==> s[i] is None,
    ensures
        num_providers(s) == 0,
    decreases s.len(),
{
    if s.len() > 0 {
        lemma_num_providers_none(s.drop_last());
    }
}

/// The first entry at or after `i` whose provider has `phandle`.
pub open spec fn find_provider<R>(s: Seq<Option<OfClkProvider<R>>>, phandle: u32, i: int) -> Option<int>
    decreases s.len() - i,
{
    if i < 0 || i >= s.len() {
        None
    } else if s[i] matches Some(p) && p.phandle == phandle {
        Some(i)
    } else {
        find_provider(s, phandle, i + 1)
    }
}

proof fn lemma_find_provider_bounds<R>(s: Seq<Option<OfClkProvider<R>>>, phandle: u32, i: int)
    requires
        0 <= i,
    ensures
        find_provider(s, phandle, i) matches Some(k) ==> i <= k < s.len() && s[k] is Some && s[k].unwrap().phandle
            == phandle,
    decreases s.len() - i,
{
    if i < s.len() {
        lemma_find_provider_bounds(s, phandle, i + 1);
    }
}

impl<R> ProviderTable<R> {
    /// [`MAX_OF_PROVIDERS`] entries, `count` of them occupied.
    pub open spec fn wf(&self) -> bool {
        &&& self.entries@.len() == MAX_OF_PROVIDERS
        &&& self.count == num_providers(self.entries@)
    }

    /// An empty table.
    pub fn new() -> (r: Self)
        ensures
            r.wf(),
            forall|i: int| 0 <= i < MAX_OF_PROVIDERS ==> #[trigger] r.entries@[i] is None,
    {
        let mut entries: Vec<Option<OfClkProvider<R>>> = Vec::new();
        let mut i: usize = 0;
        while i < MAX_OF_PROVIDERS
            invariant
                i <= MAX_OF_PROVIDERS,
                entries@.len() == i,
                forall|j: int| 0 <= j < i ==> #[trigger] entries@[j] is None,
            decreases MAX_OF_PROVIDERS - i,
        {
            entries.push(None);
            i = i + 1;
        }
        proof {
            lemma_num_providers_none(entries@);
        }
        ProviderTable { entries, count: 0 }
    }

    /// Index of the first provider registered under `phandle`.
    pub fn find(&self, phandle: u32) -> (r: Option<usize>)
        requires
            self.wf(),
        ensures
            r matches Some(k) ==> find_provider(self.entries@, phandle, 0) == Some(k as int),
            r is None ==> find_provider(self.entries@, phandle, 0) is None,
    {
        let mut i: usize = 0;
        while i < MAX_OF_PROVIDERS
            invariant
                self.wf(),
                i <= MAX_OF_PROVIDERS,
                find_provider(self.entries@, phandle, i as int) == find_provider(self.entries@, phandle, 0),
            decreases MAX_OF_PROVIDERS - i,
        {
            if let Some(p) = &self.entries[i] {
                if p.phandle == phandle {
                    return Some(i);
                }
            }
            i = i + 1;
        }
        None
    }
}

/// Register a Device Tree clock provider in the first free entry; refused
/// with `RegistryFull` when the table is full.
pub fn of_clk_add_provider<R>(tbl: &mut ProviderTable<R>, phandle: u32, resolver: R) -> (r: Result<(), ClkError>)
    requires
        old(tbl).wf(),
    ensures
        final(tbl).wf(),
        old(tbl).count >= MAX_OF_PROVIDERS ==> r == Err::<(), ClkError>(ClkError::RegistryFull) && final(tbl).entries@
            == old(tbl).entries@,
        old(tbl).count < MAX_OF_PROVIDERS ==> r is Ok && exists|i: int|
            0 <= i < MAX_OF_PROVIDERS && #[trigger] old(tbl).entries@[i] is None && (forall|j: int|
                0 <= j < i ==> #[trigger] old(tbl).entries@[j] is Some) && final(tbl).entries@ == old(tbl).entries@.update(
                i,
                Some(OfClkProvider { phandle, resolver }),
            ),
{
    if tbl.count >= MAX_OF_PROVIDERS {
        return Err(ClkError::RegistryFull);
    }
    proof {
        lemma_free_entry(tbl.entries@);
    }
    let mut i: usize = 0;
    while i < MAX_OF_PROVIDERS
        invariant
            tbl.wf(),
            tbl.entries@ == old(tbl).entries@,
            tbl.count == old(tbl).count,
            tbl.count < MAX_OF_PROVIDERS,
            i <= MAX_OF_PROVIDERS,
            forall|j: int| 0 <= j < i ==> #[trigger] tbl.entries@[j] is Some,
            exists|j: int| 0 <= j < MAX_OF_PROVIDERS && #[trigger] tbl.entries@[j] is None,
        decreases MAX_OF_PROVIDERS - i,
    {
        if tbl.entries[i].is_none() {
            let e = Some(OfClkProvider { phandle, resolver });
            proof {
                lemma_num_providers_update(tbl.entries@, i as int, e);
            }
            tbl.entries.set(i, e);
            tbl.count = tbl.count + 1;
            assert(old(tbl).entries@[i as int] is None);
            return Ok(());
        }
        i = i + 1;
    }
    Err(ClkError::RegistryFull)
}

/// Unregister the first provider registered under `phandle`, if any.
pub fn of_clk_del_provider<R>(tbl: &mut ProviderTable<R>, phandle: u32)
    requires
        old(tbl).wf(),
    ensures
        final(tbl).wf(),
        find_provider(old(tbl).entries@, phandle, 0) is None ==> final(tbl).entries@ == old(tbl).entries@,
        find_provider(old(tbl).entries@, phandle, 0) matches Some(k) ==> final(tbl).entries@ == old(tbl).entries@.update(
            k,
            None,
        ),
{
    match tbl.find(phandle) {
        None => {},
        Some(k) => {
            proof {
                lemma_find_provider_bounds(tbl.entries@, phandle, 0);
                lemma_num_providers_update(tbl.entries@, k as int, None);
            }
            tbl.entries.set(k, None);
            tbl.count = tbl.count - 1;
        },
    }
}

/// Resolve a clock from a Device Tree `clocks` specifier: the first
/// provider registered under `phandle` resolves `args`; `None` when there
/// is no such provider.
pub fn of_clk_get<R: ClkResolver>(tbl: &ProviderTable<R>, phandle: u32, args: &[u32]) -> (r: Option<ClkId>)
    requires
        tbl.wf(),
    ensures
        find_provider(tbl.entries@, phandle, 0) is None ==> r is None,
        r == clk_lookup(tbl.entries@, phandle, args@),
{
    match tbl.find(phandle) {
        None => None,
        Some(k) => {
            proof {
                lemma_find_provider_bounds(tbl.entries@, phandle, 0);
            }
            match &tbl.entries[k] {
                Some(p) => p.resolver.resolve(args),
                None => None,
            }
        },
    }
}

/// Resolve a clock by provider phandle and a single specifier cell.
pub fn of_clk_get_by_index<R: ClkResolver>(tbl: &ProviderTable<R>, phandle: u32, index: u32) -> (r: Option<ClkId>)
    requires
        tbl.wf(),
    ensures
        find_provider(tbl.entries@, phandle, 0) is None ==> r is None,
{
    let args: [u32; 1] = [index];
    of_clk_get(tbl, phandle, &args)
}

/// The position of the first entry of `names` equal to `name`.
pub open spec fn name_position(names: Seq<&str>, name: &str, i: int) -> Option<int>
    decreases names.len() - i,
{
    if i < 0 || i >= names.len() {
        None
    } else if names[i]@ == name@ {
        Some(i)
    } else {
        name_position(names, name, i + 1)
    }
}

proof fn lemma_name_position_bounds(names: Seq<&str>, name: &str, i: int)
    requires
        0 <= i,
    ensures
        name_position(names, name, i) matches Some(k) ==> i <= k < names.len(),
    decreases names.len() - i,
{
    if i < names.len() {
        lemma_name_position_bounds(names, name, i + 1);
    }
}

/// Position of `name` in a `clock-names` list.
pub fn clock_name_index(name: &str, clock_names: &[&str]) -> (r: Option<usize>)
    ensures
        r matches Some(k) ==> name_position(clock_names@, name, 0) == Some(k as int),
        r is None ==> name_position(clock_names@, name, 0) is None,
{
    let mut i: usize = 0;
    while i < clock_names.len()
        invariant
            i <= clock_names@.len(),
            name_position(clock_names@, name, i as int) == name_position(clock_names@, name, 0),
        decreases clock_names@.len() - i,
    {
        if str_eq(clock_names[i], name) {
            return Some(i);
        }
        i = i + 1;
    }
    None
}

/// Look up a clock by its `clock-names` entry: the entry at the same
/// position of `clocks_phandles` is resolved. `None` when the name is not
/// listed, no specifier stands at its position, or no provider has the
/// specifier's phandle.
pub fn of_clk_get_by_name<R: ClkResolver>(
    tbl: &ProviderTable<R>,
    name: &str,
    clock_names: &[&str],
    clocks_phandles: &[(u32, &[u32])],
) -> (r: Option<ClkId>)
    requires
        tbl.wf(),
    ensures
        name_position(clock_names@, name, 0) is None ==> r is None,
        name_position(clock_names@, name, 0) matches Some(k) && k >= clocks_phandles@.len() ==> r is None,
        name_position(clock_names@, name, 0) matches Some(k) && k < clocks_phandles@.len() && find_provider(
            tbl.entries@,
            clocks_phandles@[k].0,
            0,
        ) is None ==> r is None,
{
    let idx = match clock_name_index(name, clock_names) {
        None => {
            return None;
        },
        Some(i) => i,
    };
    if idx >= clocks_phandles.len() {
        return None;
    }
    let (phandle, args) = clocks_phandles[idx];
    of_clk_get(tbl, phandle, args)
}

/// A parsed `assigned-clocks` entry.
#[derive(Clone, Copy, Debug)]
pub struct AssignedClkEntry {
    pub phandle: u32,
    /// Clock specifier cells (up to [`MAX_CLK_ARGS`]).
    pub args: [u32; MAX_CLK_ARGS],
    pub arg_len: usize,
}

/// Switch a clock's parent; `NotFound` for an empty slot.
pub fn reparent_clock(reg: &mut ClkRegistry, id: ClkId, new_parent: ClkId) -> (r: Result<(), ClkError>)
    requires
        old(reg).wf(),
        parent_ok(new_parent.0),
    ensures
        final(reg).wf(),
        final(reg).count == old(reg).count,
        slot(old(reg).clocks@, id.0) is None ==> r == Err::<(), ClkError>(ClkError::NotFound) && final(reg).clocks@
            == old(reg).clocks@,
        slot(old(reg).clocks@, id.0) matches Some(c) ==> r is Ok && final(reg).clocks@ == old(reg).clocks@.update(
            id.0 as int,
            Some(ClkCore { parent: new_parent.0, ..c }),
        ),
{
    let idx = id.0 as usize;
    if idx >= MAX_CLOCKS {
        return Err(ClkError::NotFound);
    }
    match &reg.clocks[idx] {
        None => Err(ClkError::NotFound),
        Some(c) => {
            let mut c2 = *c;
            c2.parent = new_parent.0;
            proof {
                lemma_num_registered_update(reg.clocks@, idx as int, Some(c2));
            }
            reg.clocks.set(idx, Some(c2));
            Ok(())
        },
    }
}

/// The registry `after` setting clock `id` to rate `rate` in `before`
/// succeeded: the rate set is stored and has propagated to the clock's
/// descendants (for divider values the hardware held).
pub open spec fn rate_applied(before: Seq<Option<ClkCore>>, id: u32, rate: u64, after: Seq<Option<ClkCore>>) -> bool {
    clk_set_rate_result(before, id, rate) matches Ok(set) && exists|tape: Seq<u32>| #[trigger] propagate_spec(
        with_rate(before, id, set),
        id,
        set,
        MAX_CLOCKS as nat,
        tape,
    ) == (after, Seq::<u32>::empty(), true)
}

/// `after` is `before` with clock `id` switched to `new_parent` when one
/// is given as a valid reference (and the clock is registered).
pub open spec fn parent_applied(before: Seq<Option<ClkCore>>, id: u32, new_parent: Option<ClkId>, after: Seq<Option<ClkCore>>) -> bool {
    if new_parent is Some && parent_ok(new_parent.unwrap().0) {
        after == match slot(before, id) {
            None => before,
            Some(c) => before.update(id as int, Some(ClkCore { parent: new_parent.unwrap().0, ..c })),
        }
    } else {
        after == before
    }
}

/// `after` is the registry once one `assigned-clocks` entry for clock
/// `id` with rate `rate` (0: none) and parent `new_parent` was applied to
/// `before`.
pub open spec fn assigned_applied(
    before: Seq<Option<ClkCore>>,
    id: u32,
    rate: u64,
    new_parent: Option<ClkId>,
    after: Seq<Option<ClkCore>>,
) -> bool {
    exists|mid: Seq<Option<ClkCore>>| #[trigger] parent_applied(mid, id, new_parent, after) && if rate == 0 {
        mid == before
    } else {
        rate_applied(before, id, rate, mid)
    }
}

/// Apply one resolved `assigned-clocks` entry: set `rate` when it is
/// non-zero (an error there is returned), then switch to `new_parent` when
/// one was resolved and it is a valid clock reference.
pub fn apply_assigned_clock<H: ClkHardware>(
    reg: &mut ClkRegistry,
    hw: &mut H,
    id: ClkId,
    rate: u64,
    new_parent: Option<ClkId>,
) -> (r: Result<(), ClkError>)
    requires
        old(reg).wf(),
    ensures
        final(reg).wf(),
        final(reg).count == old(reg).count,
        rate == 0 && (new_parent is None || !parent_ok(new_parent.unwrap().0)) ==> r is Ok && final(reg).clocks@ == old(
            reg,
        ).clocks@,
        rate == 0 && new_parent is Some && parent_ok(new_parent.unwrap().0) ==> r is Ok && final(reg).clocks@ == (match slot(
            old(reg).clocks@,
            id.0,
        ) {
            None => old(reg).clocks@,
            Some(c) => old(reg).clocks@.update(id.0 as int, Some(ClkCore { parent: new_parent.unwrap().0, ..c })),
        }),
        rate != 0 ==> match clk_set_rate_result(old(reg).clocks@, id.0, rate) {
            Err(e) => r == Err::<(), ClkError>(e) && final(reg).clocks@ == old(reg).clocks@,
            Ok(_) => r is Ok,
        },
        r is Ok ==> assigned_applied(old(reg).clocks@, id.0, rate, new_parent, final(reg).clocks@),
{
    if rate > 0 {
        match clk_set_rate(reg, hw, id, rate) {
            Ok(_) => {},
            Err(e) => {
                return Err(e);
            },
        }
    }
    let ghost mid = reg.clocks@;
    if let Some(p) = new_parent {
        if p.0 == NO_PARENT || (p.0 as usize) < MAX_CLOCKS {
            let _ = reparent_clock(reg, id, p);
        }
    }
    proof {
        assert(parent_applied(mid, id.0, new_parent, reg.clocks@));
        if rate != 0 {
            assert(rate_applied(old(reg).clocks@, id.0, rate, mid));
        }
    }
    Ok(())
}

/// The rate entry `j` asks for (0 when `rates` has none).
pub open spec fn entry_rate(rates: Seq<u64>, j: int) -> u64 {
    if j < rates.len() { rates[j] } else { 0 }
}

/// The parent entry `j` names, resolved through `entries` (none when the
/// list has no entry `j` or its phandle is 0).
pub open spec fn entry_parent<R: ClkResolver>(entries: Seq<Option<OfClkProvider<R>>>, pp: Seq<(u32, &[u32])>, j: int) -> Option<ClkId> {
    if j < pp.len() && pp[j].0 != 0 {
        clk_lookup(entries, pp[j].0, pp[j].1@)
    } else {
        None
    }
}

/// The clock `assigned-clocks` entry `e` names.
pub open spec fn entry_clock<R: ClkResolver>(entries: Seq<Option<OfClkProvider<R>>>, e: AssignedClkEntry) -> Option<ClkId> {
    clk_lookup(entries, e.phandle, e.args@.subrange(0, e.arg_len as int))
}

/// `states` is the run of the registry through the first
/// `states.len() - 1` entries: it starts at `start`, and each entry names
/// a clock and moves the registry to the next state.
pub open spec fn defaults_run<R: ClkResolver>(
    entries: Seq<Option<OfClkProvider<R>>>,
    assigned: Seq<AssignedClkEntry>,
    rates: Seq<u64>,
    pp: Seq<(u32, &[u32])>,
    start: Seq<Option<ClkCore>>,
    states: Seq<Seq<Option<ClkCore>>>,
) -> bool {
    &&& 1 <= states.len() <= assigned.len() + 1
    &&& states[0] == start
    &&& forall|j: int| 0 <= j < states.len() - 1 ==> (#[trigger] entry_clock(entries, assigned[j])) is Some
        && assigned_applied(states[j], entry_clock(entries, assigned[j]).unwrap().0, entry_rate(rates, j),
        entry_parent(entries, pp, j), states[j + 1])
}

/// Apply `assigned-clocks` / `assigned-clock-rates` /
/// `assigned-clock-parents` from a DT node, entry by entry: resolve the
/// clock (`NotFound` when that fails), set its rate when `rates` gives a
/// non-zero one, and switch its parent when `parent_phandles` names one
/// (phandle 0 skips it) that resolves.
pub fn of_clk_set_defaults<R: ClkResolver, H: ClkHardware>(
    reg: &mut ClkRegistry,
    hw: &mut H,
    tbl: &ProviderTable<R>,
    assigned_clocks: &[AssignedClkEntry],
    rates: &[u64],
    parent_phandles: &[(u32, &[u32])],
) -> (r: Result<(), ClkError>)
    requires
        old(reg).wf(),
        tbl.wf(),
        forall|k: int| 0 <= k < assigned_clocks@.len() ==> #[trigger] assigned_clocks@[k].arg_len <= MAX_CLK_ARGS,
    ensures
        final(reg).wf(),
        final(reg).count == old(reg).count,
        assigned_clocks@.len() == 0 ==> r is Ok && final(reg).clocks@ == old(reg).clocks@,
        assigned_clocks@.len() > 0 && find_provider(tbl.entries@, assigned_clocks@[0].phandle, 0) is None ==> r
            == Err::<(), ClkError>(ClkError::NotFound) && final(reg).clocks@ == old(reg).clocks@,
        r is Err ==> r == Err::<(), ClkError>(ClkError::NotFound) || r == Err::<(), ClkError>(ClkError::FixedRate) || r
            == Err::<(), ClkError>(ClkError::RateOutOfRange),
        exists|states: Seq<Seq<Option<ClkCore>>>| #[trigger] defaults_run(tbl.entries@, assigned_clocks@, rates@,
            parent_phandles@, old(reg).clocks@, states) && final(reg).clocks@ == states.last() && ({
            let k = states.len() - 1;
            &&& r is Ok ==> k == assigned_clocks@.len()
            &&& r is Err ==> k < assigned_clocks@.len() && (entry_clock(tbl.entries@, assigned_clocks@[k]) is None ==> r
                == Err::<(), ClkError>(ClkError::NotFound))
            &&& r is Err && entry_clock(tbl.entries@, assigned_clocks@[k]) is Some ==> entry_rate(rates@, k) != 0
                && (clk_set_rate_result(states[k], entry_clock(tbl.entries@, assigned_clocks@[k]).unwrap().0,
                entry_rate(rates@, k)) matches Err(e) && r == Err::<(), ClkError>(e))
        }),
{
    let mut i: usize = 0;
    let ghost mut states: Seq<Seq<Option<ClkCore>>> = seq![reg.clocks@];
    while i < assigned_clocks.len()
        invariant
            reg.wf(),
            tbl.wf(),
            reg.count == old(reg).count,
            i <= assigned_clocks@.len(),
            i == 0 ==> reg.clocks@ == old(reg).clocks@,
            i > 0 ==> find_provider(tbl.entries@, assigned_clocks@[0].phandle, 0) is Some,
            forall|k: int| 0 <= k < assigned_clocks@.len() ==> #[trigger] assigned_clocks@[k].arg_len <= MAX_CLK_ARGS,
            states.len() == i + 1,
            defaults_run(tbl.entries@, assigned_clocks@, rates@, parent_phandles@, old(reg).clocks@, states),
            reg.clocks@ == states.last(),
        decreases assigned_clocks@.len() - i,
    {
        let entry = &assigned_clocks[i];
        let args = &entry.args[0..entry.arg_len];
        assert(args@ == entry.args@.subrange(0, entry.arg_len as int));
        let id = match of_clk_get(tbl, entry.phandle, args) {
            None => {
                proof {
                    assert(states.len() - 1 == i);
                    assert(defaults_run(tbl.entries@, assigned_clocks@, rates@, parent_phandles@, old(reg).clocks@, states));
                }
                return Err(ClkError::NotFound);
            },
            Some(id) => id,
        };
        let rate: u64 = if i < rates.len() {
            rates[i]
        } else {
            0
        };
        let mut new_parent: Option<ClkId> = None;
        if i < parent_phandles.len() {
            let (pp_phandle, pp_args) = parent_phandles[i];
            if pp_phandle != 0 {
                new_parent = of_clk_get(tbl, pp_phandle, pp_args);
            }
        }
        proof {
            assert(rate == entry_rate(rates@, i as int));
            assert(new_parent == entry_parent(tbl.entries@, parent_phandles@, i as int));
            assert(Some(id) == entry_clock(tbl.entries@, assigned_clocks@[i as int]));
        }
        let ghost before = reg.clocks@;
        let res = apply_assigned_clock(reg, hw, id, rate, new_parent);
        match res {
            Ok(()) => {},
            Err(e) => {
                proof {
                    assert(reg.clocks@ == before);
                    assert(rate != 0);
                }
                return Err(e);
            },
        }
        proof {
            let old_states = states;
            states = states.push(reg.clocks@);
            assert forall|j: int| 0 <= j < states.len() - 1 implies (#[trigger] entry_clock(tbl.entries@, assigned_clocks@[j])) is Some
                && assigned_applied(states[j], entry_clock(tbl.entries@, assigned_clocks@[j]).unwrap().0, entry_rate(rates@, j),
                entry_parent(tbl.entries@, parent_phandles@, j), states[j + 1]) by {
                if j < i {
                    assert(states[j] == old_states[j]);
                    assert(states[j + 1] == old_states[j + 1]);
                }
            }
        }
        i = i + 1;
    }
    Ok(())
}

/// `#clock-cells` of the provider `ph` in a (phandle, cells) list: the
/// first pair for it, 0 when none is listed.
pub open spec fn clock_cells_of(cpc: Seq<(u32, usize)>, ph: u32, i: int) -> usize
    decreases cpc.len() - i,
{
    if i < 0 || i >= cpc.len() {
        0
    } else if cpc[i].0 == ph {
        cpc[i].1
    } else {
        clock_cells_of(cpc, ph, i + 1)
    }
}

/// Number of specifier cells an entry for provider `ph` keeps (at most
/// [`MAX_CLK_ARGS`]).
pub open spec fn arg_count(cpc: Seq<(u32, usize)>, ph: u32) -> usize {
    let c = clock_cells_of(cpc, ph, 0);
    if c < MAX_CLK_ARGS { c } else { MAX_CLK_ARGS }
}

/// The argument array of an entry whose `k` cells start at `pos`; cells
/// past the end of the stream read as 0.
pub open spec fn entry_args(cells: Seq<u32>, pos: int, k: usize) -> Seq<u32> {
    Seq::new(MAX_CLK_ARGS as nat, |j: int| if j < k && pos + j < cells.len() { cells[pos + j] } else { 0u32 })
}

/// The entries (phandle, argument array, argument count) parsed from the
/// cell stream at `pos`, at most `limit` of them. Each entry is a phandle
/// followed by its provider's `#clock-cells` cells.
pub open spec fn parse_spec(cells: Seq<u32>, cpc: Seq<(u32, usize)>, pos: int, limit: nat) -> Seq<(u32, Seq<u32>, usize)>
    decreases limit,
{
    if pos < 0 || pos >= cells.len() || limit == 0 {
        seq![]
    } else {
        let ph = cells[pos];
        let k = arg_count(cpc, ph);
        let next = if pos + 1 + k < cells.len() { pos + 1 + k } else { cells.len() as int };
        seq![(ph, entry_args(cells, pos + 1, k), k)] + parse_spec(cells, cpc, next, (limit - 1) as nat)
    }
}

fn clock_cells(cells_per_clock: &[(u32, usize)], ph: u32) -> (r: usize)
    ensures
        r == clock_cells_of(cells_per_clock@, ph, 0),
{
    let mut i: usize = 0;
    while i < cells_per_clock.len()
        invariant
            i <= cells_per_clock@.len(),
            clock_cells_of(cells_per_clock@, ph, i as int) == clock_cells_of(cells_per_clock@, ph, 0),
        decreases cells_per_clock@.len() - i,
    {
        let (p, c) = cells_per_clock[i];
        if p == ph {
            return c;
        }
        i = i + 1;
    }
    0
}

/// Parse a `clocks` cell stream into `out`: each entry is a provider
/// phandle followed by as many specifier cells as `cells_per_clock` gives
/// that provider (0 when unlisted). Returns the number of entries written;
/// `out` past them is unchanged.
pub fn parse_clocks_prop(cells: &[u32], cells_per_clock: &[(u32, usize)], out: &mut [AssignedClkEntry]) -> (n: usize)
    ensures
        final(out)@.len() == old(out)@.len(),
        n == parse_spec(cells@, cells_per_clock@, 0, old(out)@.len()).len(),
        forall|j: int| #![trigger final(out)@[j]]
            0 <= j < n ==> {
                let e = parse_spec(cells@, cells_per_clock@, 0, old(out)@.len())[j];
                &&& final(out)@[j].phandle == e.0
                &&& final(out)@[j].args@ == e.1
                &&& final(out)@[j].arg_len == e.2
            },
        forall|j: int| n <= j < old(out)@.len() ==> #[trigger] final(out)@[j] == old(out)@[j],
{
    let ghost total = parse_spec(cells@, cells_per_clock@, 0, old(out)@.len());
    let ghost mut done: Seq<(u32, Seq<u32>, usize)> = seq![];
    let mut pos: usize = 0;
    let mut n: usize = 0;
    while pos < cells.len() && n < out.len()
        invariant
            out@.len() == old(out)@.len(),
            pos <= cells@.len(),
            n <= out@.len(),
            done.len() == n,
            total == parse_spec(cells@, cells_per_clock@, 0, old(out)@.len()),
            total == done + parse_spec(cells@, cells_per_clock@, pos as int, (out@.len() - n) as nat),
            forall|j: int| #![trigger out@[j]]
                0 <= j < n ==> out@[j].phandle == done[j].0 && out@[j].args@ == done[j].1 && out@[j].arg_len == done[j].2,
            forall|j: int| n <= j < old(out)@.len() ==> #[trigger] out@[j] == old(out)@[j],
        decreases out@.len() - n,
    {
        let phandle = cells[pos];
        let start = pos + 1;
        let ncells = clock_cells(cells_per_clock, phandle);
        let arg_len: usize = if ncells < MAX_CLK_ARGS { ncells } else { MAX_CLK_ARGS };
        let mut args = [0u32; MAX_CLK_ARGS];
        let mut p = start;
        let mut i: usize = 0;
        while i < arg_len
            invariant
                arg_len <= MAX_CLK_ARGS,
                i <= arg_len,
                start == pos + 1,
                pos < cells@.len(),
                p == if start + i < cells@.len() { start + i } else { cells@.len() as int },
                args@.len() == MAX_CLK_ARGS,
                forall|j: int| 0 <= j < MAX_CLK_ARGS ==> #[trigger] args@[j] == if j < i && start + j < cells@.len() {
                    cells@[start + j]
                } else {
                    0u32
                },
            decreases arg_len - i,
        {
            if p < cells.len() {
                args[i] = cells[p];
                p = p + 1;
            }
            i = i + 1;
        }
        let ghost e = (phandle, entry_args(cells@, pos + 1, arg_len), arg_len);
        assert(args@ =~= e.1);
        proof {
            let rest = parse_spec(cells@, cells_per_clock@, p as int, (out@.len() - n - 1) as nat);
            assert(parse_spec(cells@, cells_per_clock@, pos as int, (out@.len() - n) as nat) == seq![e] + rest);
            assert(done + (seq![e] + rest) =~= done.push(e) + rest);
            done = done.push(e);
        }
        out[n] = AssignedClkEntry { phandle, args, arg_len };
        n = n + 1;
        pos = p;
    }
    proof {
        assert(parse_spec(cells@, cells_per_clock@, pos as int, (out@.len() - n) as nat) =~= seq![]);
        assert(total =~= done);
    }
    n
}

} // verus!
