//! Interrupt specifiers from the device tree: the phandle cache, interrupt
//! parents, `interrupts` / `interrupts-extended` parsing, `interrupt-map`
//! translation and IRQ domains.
use vstd::prelude::*;
use crate::of::base::{
    DeviceNode, OfTree, of_get_property, of_property_read_u32, prop_value, read_u32_spec,
};
use crate::of::cells::{be32, read_be32};
use crate::text::{strlist_find, strlist_index};
use vstd::string::StringSliceAdditionalSpecFns;

verus! {

/// Most cells of an interrupt specifier.
pub const MAX_PHANDLE_ARGS: usize = 16;

/// Interrupt parsing errors.
#[derive(Debug, Clone, Copy, PartialEq, Eq, Structural)]
pub enum IrqError {
    /// Invalid argument.
    Invalid,
    /// No data.
    NoData,
    /// Not found.
    NotFound,
    /// Parse failed.
    ParseFailed,
}

/// A parsed interrupt specifier.
#[derive(Clone, Copy)]
pub struct OfIrq {
    /// Interrupt controller node.
    pub controller: Option<usize>,
    /// Specifier cells (hardware IRQ, flags, ...).
    pub args: [u32; MAX_PHANDLE_ARGS],
    /// Number of valid cells.
    pub args_count: usize,
}

impl OfIrq {
    /// An empty specifier.
    pub fn new() -> (r: Self)
        ensures
            r.controller is None,
            r.args_count == 0,
            forall|i: int| 0 <= i < MAX_PHANDLE_ARGS ==> #[trigger] r.args@[i] == 0,
    {
        OfIrq { controller: None, args: [0u32; MAX_PHANDLE_ARGS], args_count: 0 }
    }
}

/// Nodes by phandle.
pub struct PhandleCache {
    /// (phandle, node) pairs, later entries overriding earlier ones.
    pub entries: Vec<(u32, usize)>,
}

/// The last node (by index) with phandle `ph` among `nodes[..end]`.
pub open spec fn phandle_node(nodes: Seq<DeviceNode>, ph: u32, end: int) -> Option<int>
    decreases end,
{
    if end <= 0 || end > nodes.len() {
        None
    } else if nodes[end - 1].phandle != 0 && nodes[end - 1].phandle == ph {
        Some(end - 1)
    } else {
        phandle_node(nodes, ph, end - 1)
    }
}

/// The last entry for `ph` among `entries[..end]`.
pub open spec fn cache_lookup(entries: Seq<(u32, usize)>, ph: u32, end: int) -> Option<usize>
    decreases end,
{
    if end <= 0 || end > entries.len() {
        None
    } else if entries[end - 1].0 == ph {
        Some(entries[end - 1].1)
    } else {
        cache_lookup(entries, ph, end - 1)
    }
}

impl PhandleCache {
    /// The cache answers as the tree it was built from does.
    pub open spec fn of_tree(&self, tree: &OfTree) -> bool {
        forall|ph: u32|
            #![trigger cache_lookup(self.entries@, ph, self.entries@.len() as int)]
            cache_lookup(self.entries@, ph, self.entries@.len() as int) == match phandle_node(
                tree.nodes@,
                ph,
                tree.nodes@.len() as int,
            ) {
                None => Option::<usize>::None,
                Some(k) => Some(k as usize),
            }
    }
}

proof fn lemma_cache_step(entries: Seq<(u32, usize)>, nodes: Seq<DeviceNode>, i: int, ph: u32)
    requires
        0 <= i < nodes.len(),
        nodes.len() <= usize::MAX,
        cache_lookup(entries, ph, entries.len() as int) == match phandle_node(nodes, ph, i) {
            None => Option::<usize>::None,
            Some(k) => Some(k as usize),
        },
    ensures
        ({
            let e2 = if nodes[i].phandle != 0 { entries.push((nodes[i].phandle, i as usize)) } else { entries };
            cache_lookup(e2, ph, e2.len() as int) == match phandle_node(nodes, ph, i + 1) {
                None => Option::<usize>::None,
                Some(k) => Some(k as usize),
            }
        }),
{
    if nodes[i].phandle != 0 {
        let e2 = entries.push((nodes[i].phandle, i as usize));
        assert(e2.subrange(0, entries.len() as int) =~= entries);
        if nodes[i].phandle != ph {
            lemma_cache_prefix(e2, ph, entries.len() as int);
        }
    }
}

proof fn lemma_cache_prefix(e: Seq<(u32, usize)>, ph: u32, end: int)
    requires
        0 <= end < e.len(),
        e[end].0 != ph,
        end + 1 == e.len(),
    ensures
        cache_lookup(e, ph, end + 1) == cache_lookup(e.subrange(0, end), ph, end),
{
    lemma_cache_sub(e, ph, end);
}

proof fn lemma_cache_sub(e: Seq<(u32, usize)>, ph: u32, end: int)
    requires
        0 <= end <= e.len(),
    ensures
        cache_lookup(e, ph, end) == cache_lookup(e.subrange(0, end), ph, end),
    decreases end,
{
    if end > 0 {
        lemma_cache_sub(e, ph, end - 1);
        lemma_cache_sub(e.subrange(0, end), ph, end - 1);
        assert(e.subrange(0, end).subrange(0, end - 1) =~= e.subrange(0, end - 1));
    }
}

/// Build the phandle cache of a tree.
pub fn of_phandle_cache_init(tree: &OfTree) -> (c: PhandleCache)
    ensures
        c.of_tree(tree),
{
    let mut entries: Vec<(u32, usize)> = Vec::new();
    let mut i: usize = 0;
    while i < tree.nodes.len()
        invariant
            i <= tree.nodes@.len(),
            forall|ph: u32|
                #![trigger cache_lookup(entries@, ph, entries@.len() as int)]
                cache_lookup(entries@, ph, entries@.len() as int) == match phandle_node(tree.nodes@, ph, i as int) {
                    None => Option::<usize>::None,
                    Some(k) => Some(k as usize),
                },
        decreases tree.nodes@.len() - i,
    {
        let ghost old_entries = entries@;
        let ph = tree.nodes[i].phandle;
        if ph != 0 {
            entries.push((ph, i));
        }
        proof {
            assert forall|q: u32| #![trigger cache_lookup(entries@, q, entries@.len() as int)]
                cache_lookup(entries@, q, entries@.len() as int) == match phandle_node(tree.nodes@, q, i + 1) {
                    None => Option::<usize>::None,
                    Some(k) => Some(k as usize),
                } by {
                assert(cache_lookup(old_entries, q, old_entries.len() as int) == match phandle_node(
                    tree.nodes@,
                    q,
                    i as int,
                ) {
                    None => Option::<usize>::None,
                    Some(k) => Some(k as usize),
                });
                lemma_cache_step(old_entries, tree.nodes@, i as int, q);
            }
        }
        i = i + 1;
    }
    PhandleCache { entries }
}

/// The node with phandle `ph`.
pub fn of_find_node_by_phandle(cache: &PhandleCache, ph: u32) -> (r: Option<usize>)
    ensures
        r == cache_lookup(cache.entries@, ph, cache.entries@.len() as int),
{
    let mut end = cache.entries.len();
    while end > 0
        invariant
            end <= cache.entries@.len(),
            cache_lookup(cache.entries@, ph, end as int) == cache_lookup(
                cache.entries@,
                ph,
                cache.entries@.len() as int,
            ),
        decreases end,
    {
        if cache.entries[end - 1].0 == ph {
            return Some(cache.entries[end - 1].1);
        }
        end = end - 1;
    }
    None
}

/// The IRQ numbers of an interrupt controller.
#[derive(Clone, Copy)]
pub struct IrqDomain {
    /// First global IRQ number of the domain.
    pub base_irq: u32,
    /// Number of IRQs in the domain.
    pub size: u32,
}

/// The IRQ domains, by controller node.
pub struct IrqDomains {
    /// Next free global IRQ number.
    pub next: u32,
    /// (controller, domain) pairs; a later entry replaces an earlier one.
    pub domains: Vec<(usize, IrqDomain)>,
}

/// The domain registered last for `ctrl` among `d[..end]`.
pub open spec fn domain_of(d: Seq<(usize, IrqDomain)>, ctrl: usize, end: int) -> Option<IrqDomain>
    decreases end,
{
    if end <= 0 || end > d.len() {
        None
    } else if d[end - 1].0 == ctrl {
        Some(d[end - 1].1)
    } else {
        domain_of(d, ctrl, end - 1)
    }
}

impl IrqDomains {
    /// No domains; global IRQ numbers start at 1.
    pub fn new() -> (r: Self)
        ensures
            r.next == 1,
            r.domains@.len() == 0,
    {
        IrqDomains { next: 1, domains: Vec::new() }
    }
}

/// Register a domain of `size` IRQs for controller `ctrl`; returns its
/// first global IRQ number.
pub fn irq_domain_add(doms: &mut IrqDomains, ctrl: usize, size: u32) -> (base: u32)
    requires
        old(doms).next + size <= u32::MAX,
    ensures
        base == old(doms).next,
        final(doms).next == old(doms).next + size,
        final(doms).domains@ == old(doms).domains@.push((ctrl, IrqDomain { base_irq: base, size })),
{
    let base = doms.next;
    doms.next = doms.next + size;
    doms.domains.push((ctrl, IrqDomain { base_irq: base, size }));
    base
}

/// The global IRQ number of hardware IRQ `hwirq` of controller `ctrl`.
pub open spec fn domain_map_spec(doms: &IrqDomains, ctrl: usize, hwirq: u32) -> Option<u32> {
    match domain_of(doms.domains@, ctrl, doms.domains@.len() as int) {
        None => None,
        Some(d) => if hwirq >= d.size {
            None
        } else {
            Some(vstd::wrapping::u32_specs::wrapping_add(d.base_irq, hwirq))
        },
    }
}

/// Map a controller's hardware IRQ to its global number.
pub fn irq_domain_map(doms: &IrqDomains, ctrl: usize, hwirq: u32) -> (r: Option<u32>)
    ensures
        r == domain_map_spec(doms, ctrl, hwirq),
{
    let mut end = doms.domains.len();
    while end > 0
        invariant
            end <= doms.domains@.len(),
            domain_of(doms.domains@, ctrl, end as int) == domain_of(doms.domains@, ctrl, doms.domains@.len() as int),
        decreases end,
    {
        let (c, d) = doms.domains[end - 1];
        if c == ctrl {
            if hwirq >= d.size {
                return None;
            }
            return Some(d.base_irq.wrapping_add(hwirq));
        }
        end = end - 1;
    }
    None
}

/// The interrupt parent of node `child`: the node its (or its nearest
/// ancestor's) `interrupt-parent` names, or the nearest ancestor that is
/// an interrupt controller (has `#interrupt-cells`), whichever comes first
/// going up.
pub open spec fn irq_parent_spec(tree: &OfTree, cache: &PhandleCache, child: usize) -> Option<usize>
    decreases child,
{
    if child >= tree.nodes@.len() {
        None
    } else {
        match read_u32_spec(prop_value(Some(&tree.nodes@[child as int]), "interrupt-parent"@)) {
            Ok(ph) => cache_lookup(cache.entries@, ph, cache.entries@.len() as int),
            Err(_) => match tree.nodes@[child as int].parent {
                None => None,
                Some(p) => if p >= child || p >= tree.nodes@.len() {
                    None
                } else if read_u32_spec(prop_value(Some(&tree.nodes@[p as int]), "#interrupt-cells"@)) is Ok {
                    Some(p)
                } else {
                    irq_parent_spec(tree, cache, p)
                },
            },
        }
    }
}

/// Find the interrupt parent of node `child`.
pub fn of_irq_find_parent(tree: &OfTree, cache: &PhandleCache, child: usize) -> (r: Option<usize>)
    ensures
        r == irq_parent_spec(tree, cache, child),
{
    let mut cur = child;
    loop
        invariant
            irq_parent_spec(tree, cache, cur) == irq_parent_spec(tree, cache, child),
        decreases cur,
    {
        if cur >= tree.nodes.len() {
            return None;
        }
        if let Ok(ph) = of_property_read_u32(Some(&tree.nodes[cur]), "interrupt-parent") {
            return of_find_node_by_phandle(cache, ph);
        }
        match tree.nodes[cur].parent {
            None => {
                return None;
            },
            Some(p) => {
                if p >= cur || p >= tree.nodes.len() {
                    return None;
                }
                if of_property_read_u32(Some(&tree.nodes[p]), "#interrupt-cells").is_ok() {
                    return Some(p);
                }
                cur = p;
            },
        }
    }
}

/// `#interrupt-cells` of a node, if set.
pub open spec fn int_cells(tree: &OfTree, n: usize) -> Option<u32> {
    if n < tree.nodes@.len() {
        match read_u32_spec(prop_value(Some(&tree.nodes@[n as int]), "#interrupt-cells"@)) {
            Ok(v) => Some(v),
            Err(_) => None,
        }
    } else {
        None
    }
}

/// Number of interrupts of node `dev`: the cells of its `interrupts`
/// divided by its interrupt parent's `#interrupt-cells` (0 when any of
/// these is missing or the cell count is 0).
pub open spec fn irq_count_spec(tree: &OfTree, cache: &PhandleCache, dev: usize) -> usize {
    if dev >= tree.nodes@.len() {
        0
    } else {
        match irq_parent_spec(tree, cache, dev) {
            None => 0,
            Some(p) => match int_cells(tree, p) {
                None => 0,
                Some(n) => if n == 0 { 0 } else { match prop_value(Some(&tree.nodes@[dev as int]), "interrupts"@) {
                    None => 0,
                    Some(v) => ((v.len() / 4) / (n as nat)) as usize,
                } },
            },
        }
    }
}

/// Count the interrupts of node `dev`.
pub fn of_irq_count(tree: &OfTree, cache: &PhandleCache, dev: usize) -> (r: usize)
    ensures
        r == irq_count_spec(tree, cache, dev),
{
    if dev >= tree.nodes.len() {
        return 0;
    }
    let parent = match of_irq_find_parent(tree, cache, dev) {
        None => {
            return 0;
        },
        Some(p) => p,
    };
    if parent >= tree.nodes.len() {
        return 0;
    }
    let intsize = match of_property_read_u32(Some(&tree.nodes[parent]), "#interrupt-cells") {
        Ok(s) => s,
        Err(_) => {
            return 0;
        },
    };
    let interrupts = match of_get_property(Some(&tree.nodes[dev]), "interrupts") {
        None => {
            return 0;
        },
        Some(i) => i,
    };
    if intsize == 0 {
        return 0;
    }
    let total = interrupts.len() / 4;
    total / (intsize as usize)
}

/// Whether node `n` is a final interrupt controller: marked
/// `interrupt-controller`, without an `interrupt-map`.
pub open spec fn final_intc(tree: &OfTree, n: usize) -> bool {
    n < tree.nodes@.len() && prop_value(Some(&tree.nodes@[n as int]), "interrupt-controller"@) is Some && prop_value(
        Some(&tree.nodes@[n as int]),
        "interrupt-map"@,
    ) is None
}

fn has_prop(tree: &OfTree, n: usize, name: &str) -> (r: bool)
    requires
        n < tree.nodes@.len(),
    ensures
        r == (prop_value(Some(&tree.nodes@[n as int]), name@) is Some),
{
    of_get_property(Some(&tree.nodes[n]), name).is_some()
}

fn read_cells_or(tree: &OfTree, n: usize, name: &str, dflt: u64) -> (r: u64)
    requires
        n < tree.nodes@.len(),
    ensures
        r == match read_u32_spec(prop_value(Some(&tree.nodes@[n as int]), name@)) {
            Ok(v) => v as u64,
            Err(_) => dflt,
        },
{
    match of_property_read_u32(Some(&tree.nodes[n]), name) {
        Ok(v) => v as u64,
        Err(_) => dflt,
    }
}

/// The cells of `name` of node `n`, or `dflt` when unset.
pub open spec fn cells_or(tree: &OfTree, n: usize, name: Seq<char>, dflt: u64) -> u64 {
    match read_u32_spec(prop_value(Some(&tree.nodes@[n as int]), name)) {
        Ok(v) => v as u64,
        Err(_) => dflt,
    }
}

/// Whether the interrupt parent `p` ends the walk at once: a final
/// interrupt controller whose cell counts fit the specifier buffer for an
/// address of `alen` bytes and a specifier of `nargs` cells.
pub open spec fn simple_parent(tree: &OfTree, p: usize, alen: nat, nargs: usize) -> bool {
    &&& final_intc(tree, p)
    &&& int_cells(tree, p) is Some
    &&& ({
        let a = cells_or(tree, p, "#address-cells"@, 2);
        let n = int_cells(tree, p).unwrap() as int;
        &&& (if a < alen / 4 { a as int } else { (alen / 4) as int }) <= 16
        &&& a + (if n < nargs { n } else { nargs as int }) <= 16
    })
}

/// Walk up from the interrupt parent of `device`, translating the
/// specifier in `out_irq` through each `interrupt-map`, until a final
/// interrupt controller. Cell counts past the 16-cell specifier buffer
/// are refused with `Invalid`; a walk that revisits more levels than the
/// tree has nodes ends with `NotFound`.
fn of_irq_parse_raw(tree: &OfTree, cache: &PhandleCache, device: usize, addr: &[u8], out_irq: &mut OfIrq) -> (r: Result<
    (),
    IrqError,
>)
    requires
        old(out_irq).args_count <= MAX_PHANDLE_ARGS,
        old(out_irq).controller matches Some(c) ==> c < tree.nodes@.len(),
    ensures
        final(out_irq).args_count <= MAX_PHANDLE_ARGS,
        final(out_irq).controller matches Some(c) ==> c < tree.nodes@.len(),
        irq_parent_spec(tree, cache, device) is None ==> r == Err::<(), IrqError>(IrqError::NotFound),
        (irq_parent_spec(tree, cache, device) matches Some(p) && simple_parent(tree, p, addr@.len(), old(out_irq).args_count))
            ==> r is Ok && *final(out_irq) == *old(out_irq),
{
    let mut ipar = match of_irq_find_parent(tree, cache, device) {
        None => {
            return Err(IrqError::NotFound);
        },
        Some(p) => p,
    };
    if ipar >= tree.nodes.len() {
        return Err(IrqError::NotFound);
    }
    let mut intsize: u64 = match of_property_read_u32(Some(&tree.nodes[ipar]), "#interrupt-cells") {
        Ok(v) => v as u64,
        Err(_) => {
            return Err(IrqError::Invalid);
        },
    };
    let mut addrsize: u64 = read_cells_or(tree, ipar, "#address-cells", 2);
    let mut match_array = [0u32; MAX_PHANDLE_ARGS];
    let acells = (addr.len() / 4) as u64;
    let na = if addrsize < acells { addrsize } else { acells };
    if na > 16 {
        return Err(IrqError::Invalid);
    }
    let mut i: u64 = 0;
    while i < na
        invariant
            na <= 16,
            na <= addr@.len() / 4,
            i <= na,
        decreases na - i,
    {
        match_array[i as usize] = read_be32(addr, (i * 4) as usize);
        i = i + 1;
    }
    let ni = if intsize < out_irq.args_count as u64 { intsize } else { out_irq.args_count as u64 };
    if addrsize + ni > 16 {
        return Err(IrqError::Invalid);
    }
    let mut i: u64 = 0;
    while i < ni
        invariant
            addrsize + ni <= 16,
            ni <= out_irq.args_count <= MAX_PHANDLE_ARGS,
            i <= ni,
        decreases ni - i,
    {
        match_array[(addrsize + i) as usize] = out_irq.args[i as usize];
        i = i + 1;
    }
    if has_prop(tree, ipar, "interrupt-controller") && !has_prop(tree, ipar, "interrupt-map") {
        return Ok(());
    }
    proof {
        assert(irq_parent_spec(tree, cache, device) == Some(ipar));
        assert(!simple_parent(tree, ipar, addr@.len(), old(out_irq).args_count));
    }
    let mut fuel: usize = tree.nodes.len();
    loop
        invariant
            ipar < tree.nodes@.len(),
            out_irq.args_count <= MAX_PHANDLE_ARGS,
            out_irq.controller matches Some(c) ==> c < tree.nodes@.len(),
            irq_parent_spec(tree, cache, device) is Some,
            irq_parent_spec(tree, cache, device) matches Some(p) ==> !simple_parent(
                tree,
                p,
                addr@.len(),
                old(out_irq).args_count,
            ),
            addrsize <= u32::MAX,
            intsize <= u32::MAX,
        decreases fuel,
    {
        let is_intc = has_prop(tree, ipar, "interrupt-controller");
        let imap_opt = of_get_property(Some(&tree.nodes[ipar]), "interrupt-map");
        if is_intc && imap_opt.is_none() {
            return Ok(());
        }
        if fuel == 0 {
            return Err(IrqError::NotFound);
        }
        fuel = fuel - 1;
        match imap_opt {
            Some(imap) => {
                let mut masked = match_array;
                if let Some(mask) = of_get_property(Some(&tree.nodes[ipar]), "interrupt-map-mask") {
                    let total = addrsize + intsize;
                    let mcells = (mask.len() / 4) as u64;
                    let nm = if total < mcells { total } else { mcells };
                    if nm > 16 {
                        return Err(IrqError::Invalid);
                    }
                    let mut k: u64 = 0;
                    while k < nm
                        invariant
                            nm <= 16,
                            nm <= mask@.len() / 4,
                            k <= nm,
                        decreases nm - k,
                    {
                        let m = read_be32(mask, (k * 4) as usize);
                        masked[k as usize] = masked[k as usize] & m;
                        k = k + 1;
                    }
                }
                let cells = addrsize + intsize;
                if cells > 16 {
                    return Err(IrqError::Invalid);
                }
                let _n = imap.len();
                let ilen = imap.len() as u64;
                let entry = cells + 1;
                let mut offset: u64 = 0;
                let mut found = false;
                while entry * 4 <= ilen - offset
                    invariant
                        cells <= 16,
                        entry == cells + 1,
                        ilen == imap@.len(),
                        ilen <= usize::MAX,
                        addrsize <= u32::MAX,
                        intsize <= u32::MAX,
                        irq_parent_spec(tree, cache, device) is Some,
                        irq_parent_spec(tree, cache, device) matches Some(p) ==> !simple_parent(
                            tree,
                            p,
                            addr@.len(),
                            old(out_irq).args_count,
                        ),
                        offset <= ilen,
                        ipar < tree.nodes@.len(),
                        out_irq.args_count <= MAX_PHANDLE_ARGS,
                        out_irq.controller matches Some(c) ==> c < tree.nodes@.len(),
                    decreases ilen - offset,
                {
                    let mut all = true;
                    let mut k: u64 = 0;
                    while k < cells
                        invariant
                            cells <= 16,
                            offset + (cells + 1) * 4 <= ilen,
                            ilen == imap@.len(),
                            ilen <= usize::MAX,
                            k <= cells,
                        decreases cells - k,
                    {
                        let mv = read_be32(imap, (offset + k * 4) as usize);
                        if masked[k as usize] != mv {
                            all = false;
                            break;
                        }
                        k = k + 1;
                    }
                    let ph_off = offset + cells * 4;
                    let ph = read_be32(imap, ph_off as usize);
                    if all {
                        found = true;
                        let parent = match of_find_node_by_phandle(cache, ph) {
                            None => {
                                return Err(IrqError::NotFound);
                            },
                            Some(p) => p,
                        };
                        if parent >= tree.nodes.len() {
                            return Err(IrqError::NotFound);
                        }
                        let pint: u64 = match of_property_read_u32(Some(&tree.nodes[parent]), "#interrupt-cells") {
                            Ok(v) => v as u64,
                            Err(_) => {
                                return Err(IrqError::Invalid);
                            },
                        };
                        if pint > 16 {
                            return Err(IrqError::Invalid);
                        }
                        let spec_off = ph_off + 4;
                        out_irq.controller = Some(parent);
                        out_irq.args_count = pint as usize;
                        let mut k: u64 = 0;
                        while k < pint
                            invariant
                                pint <= 16,
                                k <= pint,
                                spec_off <= ilen,
                                ilen == imap@.len(),
                                ilen <= usize::MAX,
                                out_irq.args_count == pint,
                                out_irq.controller == Some(parent),
                                parent < tree.nodes@.len(),
                            decreases pint - k,
                        {
                            if k * 4 + 4 <= ilen - spec_off {
                                out_irq.args[k as usize] = read_be32(imap, (spec_off + k * 4) as usize);
                            }
                            k = k + 1;
                        }
                        ipar = parent;
                        intsize = pint;
                        addrsize = read_cells_or(tree, parent, "#address-cells", 0);
                        if addrsize + intsize > 16 {
                            return Err(IrqError::Invalid);
                        }
                        let mut k: u64 = 0;
                        while k < intsize
                            invariant
                                addrsize + intsize <= 16,
                                intsize == out_irq.args_count,
                                k <= intsize,
                            decreases intsize - k,
                        {
                            match_array[(addrsize + k) as usize] = out_irq.args[k as usize];
                            k = k + 1;
                        }
                        break;
                    }
                    match of_find_node_by_phandle(cache, ph) {
                        Some(parent) => {
                            let pint = if parent < tree.nodes.len() {
                                read_cells_or(tree, parent, "#interrupt-cells", 1)
                            } else {
                                1
                            };
                            let step = (cells + 1 + pint) * 4;
                            if step > ilen - offset {
                                break;
                            }
                            offset = offset + step;
                        },
                        None => {
                            break;
                        },
                    }
                }
                if !found {
                    return Err(IrqError::NotFound);
                }
            },
            None => {
                ipar = match of_irq_find_parent(tree, cache, ipar) {
                    None => {
                        return Err(IrqError::NotFound);
                    },
                    Some(p) => p,
                };
                if ipar >= tree.nodes.len() {
                    return Err(IrqError::NotFound);
                }
                intsize = match of_property_read_u32(Some(&tree.nodes[ipar]), "#interrupt-cells") {
                    Ok(v) => v as u64,
                    Err(_) => {
                        return Err(IrqError::Invalid);
                    },
                };
            },
        }
    }
}

/// The common case of [`of_irq_parse_one`]: no `interrupts-extended`, an
/// interrupt parent `p` with `n` cells (at most 16) that ends the walk at
/// once, and an `interrupts` property holding entry `index`.
pub open spec fn simple_irq(tree: &OfTree, cache: &PhandleCache, dev: usize, index: usize, p: usize, n: u32) -> bool {
    &&& dev < tree.nodes@.len()
    &&& prop_value(Some(&tree.nodes@[dev as int]), "interrupts-extended"@) is None
    &&& irq_parent_spec(tree, cache, dev) == Some(p)
    &&& int_cells(tree, p) == Some(n)
    &&& n <= 16
    &&& prop_value(Some(&tree.nodes@[dev as int]), "interrupts"@) matches Some(v) && (index + 1) * n * 4 <= v.len()
    &&& simple_parent(
        tree,
        p,
        match prop_value(Some(&tree.nodes@[dev as int]), "reg"@) {
            Some(r) => r.len(),
            None => 0,
        },
        n as usize,
    )
}

/// Parse the `index`-th interrupt of node `dev` into `out_irq`: from
/// `interrupts-extended` when present (each entry names its controller),
/// else from `interrupts` with the interrupt parent's cell count; then
/// translate it through any `interrupt-map` on the way up.
pub fn of_irq_parse_one(tree: &OfTree, cache: &PhandleCache, dev: usize, index: usize, out_irq: &mut OfIrq) -> (r: Result<
    (),
    IrqError,
>)
    requires
        old(out_irq).args_count <= MAX_PHANDLE_ARGS,
        old(out_irq).controller matches Some(c) ==> c < tree.nodes@.len(),
    ensures
        final(out_irq).args_count <= MAX_PHANDLE_ARGS,
        final(out_irq).controller matches Some(c) ==> c < tree.nodes@.len(),
        dev >= tree.nodes@.len() ==> r == Err::<(), IrqError>(IrqError::Invalid),
        forall|p: usize, n: u32|
            #![trigger simple_irq(tree, cache, dev, index, p, n)]
            simple_irq(tree, cache, dev, index, p, n) ==> {
                let v = prop_value(Some(&tree.nodes@[dev as int]), "interrupts"@).unwrap();
                &&& r is Ok
                &&& final(out_irq).controller == Some(p)
                &&& final(out_irq).args_count == n
                &&& forall|i: int| 0 <= i < n ==> #[trigger] final(out_irq).args@[i] == be32(v, (index * n + i) * 4)
            },
{
    if dev >= tree.nodes.len() {
        return Err(IrqError::Invalid);
    }
    let node = &tree.nodes[dev];
    let empty: [u8; 0] = [];
    let addr: &[u8] = match of_get_property(Some(node), "reg") {
        Some(a) => a,
        None => &empty,
    };
    if let Some(ext) = of_get_property(Some(node), "interrupts-extended") {
        let _n = ext.len();
        let mut offset: usize = 0;
        let mut cur: usize = 0;
        while offset < ext.len() && cur <= index
            invariant
                dev < tree.nodes@.len(),
                node == &tree.nodes@[dev as int],
                prop_value(Some(&tree.nodes@[dev as int]), "interrupts-extended"@) is Some,
                offset <= ext@.len(),
                ext@.len() <= usize::MAX,
                out_irq.args_count <= MAX_PHANDLE_ARGS,
                out_irq.controller matches Some(c) ==> c < tree.nodes@.len(),
            decreases ext@.len() - offset,
        {
            if ext.len() - offset < 4 {
                break;
            }
            let ph = read_be32(ext, offset);
            offset = offset + 4;
            let ctrl = match of_find_node_by_phandle(cache, ph) {
                None => {
                    return Err(IrqError::NotFound);
                },
                Some(c) => c,
            };
            if ctrl >= tree.nodes.len() {
                return Err(IrqError::NotFound);
            }
            let intsize: u64 = match of_property_read_u32(Some(&tree.nodes[ctrl]), "#interrupt-cells") {
                Ok(v) => v as u64,
                Err(_) => {
                    return Err(IrqError::Invalid);
                },
            };
            if cur == index {
                if intsize > 16 {
                    return Err(IrqError::Invalid);
                }
                out_irq.controller = Some(ctrl);
                out_irq.args_count = intsize as usize;
                let mut i: u64 = 0;
                while i < intsize
                    invariant
                        dev < tree.nodes@.len(),
                        prop_value(Some(&tree.nodes@[dev as int]), "interrupts-extended"@) is Some,
                        intsize <= 16,
                        i <= intsize,
                        offset <= ext@.len(),
                        out_irq.args_count == intsize,
                        out_irq.controller == Some(ctrl),
                        ctrl < tree.nodes@.len(),
                    decreases intsize - i,
                {
                    if ext.len() - offset < 4 {
                        return Err(IrqError::Invalid);
                    }
                    out_irq.args[i as usize] = read_be32(ext, offset);
                    offset = offset + 4;
                    i = i + 1;
                }
                return of_irq_parse_raw(tree, cache, dev, addr, out_irq);
            }
            let skip = intsize * 4;
            if skip > (ext.len() - offset) as u64 {
                offset = ext.len();
            } else {
                offset = offset + skip as usize;
            }
            cur = cur + 1;
        }
        return Err(IrqError::Invalid);
    }
    let parent = match of_irq_find_parent(tree, cache, dev) {
        None => {
            return Err(IrqError::NotFound);
        },
        Some(p) => p,
    };
    if parent >= tree.nodes.len() {
        return Err(IrqError::NotFound);
    }
    let intsize: u32 = match of_property_read_u32(Some(&tree.nodes[parent]), "#interrupt-cells") {
        Ok(v) => v,
        Err(_) => {
            return Err(IrqError::Invalid);
        },
    };
    if intsize > 16 {
        return Err(IrqError::Invalid);
    }
    let ints = match of_get_property(Some(node), "interrupts") {
        None => {
            return Err(IrqError::NoData);
        },
        Some(i) => i,
    };
    let _n = ints.len();
    let isz = intsize as usize;
    if isz > 0 {
        if isz * 4 > ints.len() {
            assert((index + 1) * isz * 4 > ints@.len()) by (nonlinear_arith)
                requires
                    isz * 4 > ints@.len(),
                    isz > 0,
            ;
            return Err(IrqError::Invalid);
        }
        if index > (ints.len() - isz * 4) / (isz * 4) {
            assert((index + 1) * isz * 4 > ints@.len()) by (nonlinear_arith)
                requires
                    index > (ints@.len() - isz * 4) / (isz * 4),
                    isz > 0,
                    isz * 4 <= ints@.len(),
            ;
            return Err(IrqError::Invalid);
        }
    }
    assert(index * isz * 4 + isz * 4 <= ints@.len()) by (nonlinear_arith)
        requires
            isz > 0 ==> isz * 4 <= ints@.len(),
            isz > 0 ==> index <= (ints@.len() - isz * 4) / (isz * 4),
    ;
    let offset = index * isz * 4;
    out_irq.controller = Some(parent);
    out_irq.args_count = isz;
    let mut i: usize = 0;
    while i < isz
        invariant
            isz <= 16,
            i <= isz,
            offset + isz * 4 <= ints@.len(),
            ints@.len() <= usize::MAX,
            offset == index * isz * 4,
            out_irq.args_count == isz,
            out_irq.controller == Some(parent),
            parent < tree.nodes@.len(),
            forall|j: int| 0 <= j < i ==> #[trigger] out_irq.args@[j] == be32(ints@, (index * isz + j) * 4),
        decreases isz - i,
    {
        assert(offset + i * 4 == (index * isz + i) * 4) by (nonlinear_arith)
            requires
                offset == index * isz * 4,
        ;
        out_irq.args[i] = read_be32(ints, offset + i * 4);
        i = i + 1;
    }
    let ghost mid = *out_irq;
    let r = of_irq_parse_raw(tree, cache, dev, addr, out_irq);
    proof {
        assert forall|p: usize, n: u32| #![trigger simple_irq(tree, cache, dev, index, p, n)]
            simple_irq(tree, cache, dev, index, p, n) implies r is Ok && *out_irq == mid && p == parent && n == intsize by {
            assert(addr@.len() == match prop_value(Some(&tree.nodes@[dev as int]), "reg"@) {
                Some(r) => r.len(),
                None => 0,
            });
        }
    }
    r
}

/// The global IRQ number of the `index`-th interrupt of node `dev`: its
/// controller's domain maps the first specifier cell.
pub fn of_irq_get(tree: &OfTree, cache: &PhandleCache, doms: &IrqDomains, dev: usize, index: usize) -> (r: Result<
    u32,
    IrqError,
>)
    ensures
        dev >= tree.nodes@.len() ==> r == Err::<u32, IrqError>(IrqError::Invalid),
        forall|p: usize, n: u32|
            #![trigger simple_irq(tree, cache, dev, index, p, n)]
            simple_irq(tree, cache, dev, index, p, n) ==> {
                let v = prop_value(Some(&tree.nodes@[dev as int]), "interrupts"@).unwrap();
                if n == 0 {
                    r == Err::<u32, IrqError>(IrqError::NoData)
                } else {
                    match domain_map_spec(doms, p, be32(v, index * n * 4)) {
                        None => r == Err::<u32, IrqError>(IrqError::NotFound),
                        Some(irq) => r == Ok::<u32, IrqError>(irq),
                    }
                }
            },
{
    let mut oirq = OfIrq::new();
    match of_irq_parse_one(tree, cache, dev, index, &mut oirq) {
        Ok(()) => {},
        Err(e) => {
            return Err(e);
        },
    }
    let ctrl = match oirq.controller {
        None => {
            return Err(IrqError::Invalid);
        },
        Some(c) => c,
    };
    if oirq.args_count == 0 {
        return Err(IrqError::NoData);
    }
    match irq_domain_map(doms, ctrl, oirq.args[0]) {
        None => Err(IrqError::NotFound),
        Some(irq) => Ok(irq),
    }
}

/// The global IRQ number and trigger flags (the second specifier cell, 0
/// without one) of the `index`-th interrupt of node `dev`.
pub fn of_irq_to_resource(tree: &OfTree, cache: &PhandleCache, doms: &IrqDomains, dev: usize, index: usize) -> (r:
    Result<(u32, u32), IrqError>)
    ensures
        dev >= tree.nodes@.len() ==> r == Err::<(u32, u32), IrqError>(IrqError::Invalid),
        forall|p: usize, n: u32|
            #![trigger simple_irq(tree, cache, dev, index, p, n)]
            simple_irq(tree, cache, dev, index, p, n) ==> {
                let v = prop_value(Some(&tree.nodes@[dev as int]), "interrupts"@).unwrap();
                if n == 0 {
                    r == Err::<(u32, u32), IrqError>(IrqError::NoData)
                } else {
                    match domain_map_spec(doms, p, be32(v, index * n * 4)) {
                        None => r == Err::<(u32, u32), IrqError>(IrqError::NotFound),
                        Some(irq) => r == Ok::<(u32, u32), IrqError>(
                            (irq, if n > 1 { be32(v, (index * n + 1) * 4) } else { 0 }),
                        ),
                    }
                }
            },
{
    let irq = match of_irq_get(tree, cache, doms, dev, index) {
        Ok(i) => i,
        Err(e) => {
            return Err(e);
        },
    };
    let mut oirq = OfIrq::new();
    match of_irq_parse_one(tree, cache, dev, index, &mut oirq) {
        Ok(()) => {},
        Err(e) => {
            return Err(e);
        },
    }
    let flags = if oirq.args_count > 1 { oirq.args[1] } else { 0 };
    Ok((irq, flags))
}

/// The global IRQ number of the interrupt named `name` in node `dev`'s
/// `interrupt-names`: `Invalid` without the node, `NotFound` without the
/// property or the name.
pub fn of_irq_get_byname(tree: &OfTree, cache: &PhandleCache, doms: &IrqDomains, dev: usize, name: &str) -> (r: Result<
    u32,
    IrqError,
>)
    ensures
        dev >= tree.nodes@.len() ==> r == Err::<u32, IrqError>(IrqError::Invalid),
        dev < tree.nodes@.len() && prop_value(Some(&tree.nodes@[dev as int]), "interrupt-names"@) is None ==> r == Err::<
            u32,
            IrqError,
        >(IrqError::NotFound),
        dev < tree.nodes@.len() && (prop_value(Some(&tree.nodes@[dev as int]), "interrupt-names"@) matches Some(v)
            && strlist_find(v, name.spec_bytes(), 0, 0) is None) ==> r == Err::<u32, IrqError>(IrqError::NotFound),
{
    if dev >= tree.nodes.len() {
        return Err(IrqError::Invalid);
    }
    let names = match of_get_property(Some(&tree.nodes[dev]), "interrupt-names") {
        None => {
            return Err(IrqError::NotFound);
        },
        Some(n) => n,
    };
    match strlist_index(names, name.as_bytes()) {
        None => Err(IrqError::NotFound),
        Some(i) => of_irq_get(tree, cache, doms, dev, i),
    }
}

} // verus!
