//! Address translation: `reg` entries and their translation to CPU
//! physical addresses through the `ranges` of each ancestor bus.
//!
//! Sums on cell values wrap at 64 bits, as the release build computes them.
use vstd::prelude::*;
pub use crate::of::cells::of_read_number;
use crate::of::base::{DeviceNode, OfTree, of_get_property, of_property_read_u32, prop_value, read_u32_spec};
use crate::of::cells::{be32, be32_bytes, read_number_spec, u32_to_be};
use vstd::wrapping::u64_specs;

verus! {

/// The address translation failure marker.
pub const OF_BAD_ADDR: u64 = 0xFFFF_FFFF_FFFF_FFFF;

/// Most address cells an address is copied into.
pub const OF_MAX_ADDR_CELLS: usize = 4;

/// Address translation errors.
#[derive(Debug, Clone, Copy, PartialEq, Eq, Structural)]
pub enum AddrError {
    /// Invalid address.
    Invalid,
    /// Translation failed.
    TranslateFailed,
    /// No parent.
    NoParent,
    /// Bad cell count.
    BadCellCount,
}

/// The bytes `write_number` leaves in `addr` for `value` in `size` cells:
/// the low 32 bits for one cell, the two halves for two, nothing for none.
pub open spec fn write_number_spec(addr: Seq<u8>, value: u64, size: usize) -> Seq<u8> {
    if size == 1 {
        be32_bytes((value % 0x1_0000_0000) as u32) + addr.subrange(4, addr.len() as int)
    } else if size == 2 {
        be32_bytes((value / 0x1_0000_0000) as u32) + be32_bytes((value % 0x1_0000_0000) as u32) + addr.subrange(
            8,
            addr.len() as int,
        )
    } else {
        addr
    }
}

/// Write `value` as `size` big-endian cells at the front of `addr`.
pub fn write_number(addr: &mut [u8], value: u64, size: usize)
    requires
        size <= 2,
        old(addr)@.len() >= 4 * size,
    ensures
        final(addr)@ == write_number_spec(old(addr)@, value, size),
{
    if size == 1 {
        let b = u32_to_be((value % 0x1_0000_0000) as u32);
        addr[0] = b[0];
        addr[1] = b[1];
        addr[2] = b[2];
        addr[3] = b[3];
        assert(addr@ =~= write_number_spec(old(addr)@, value, size));
    } else if size == 2 {
        let hi = u32_to_be((value / 0x1_0000_0000) as u32);
        let lo = u32_to_be((value % 0x1_0000_0000) as u32);
        addr[0] = hi[0];
        addr[1] = hi[1];
        addr[2] = hi[2];
        addr[3] = hi[3];
        addr[4] = lo[0];
        addr[5] = lo[1];
        addr[6] = lo[2];
        addr[7] = lo[3];
        assert(addr@ =~= write_number_spec(old(addr)@, value, size));
    }
}

/// The node a cell-count property is read from: the parent when there is
/// one, else the node itself.
pub open spec fn cells_source(tree: &OfTree, np: usize) -> Option<&DeviceNode> {
    if np < tree.nodes@.len() {
        match tree.nodes@[np as int].parent {
            Some(p) if p < tree.nodes@.len() => Some(&tree.nodes@[p as int]),
            _ => Some(&tree.nodes@[np as int]),
        }
    } else {
        None
    }
}

/// `#address-cells` governing node `np` (2 when unset).
pub open spec fn n_addr_cells_spec(tree: &OfTree, np: usize) -> u64 {
    match read_u32_spec(prop_value(cells_source(tree, np), "#address-cells"@)) {
        Ok(v) => v as u64,
        Err(_) => 2,
    }
}

/// `#size-cells` governing node `np` (1 when unset).
pub open spec fn n_size_cells_spec(tree: &OfTree, np: usize) -> u64 {
    match read_u32_spec(prop_value(cells_source(tree, np), "#size-cells"@)) {
        Ok(v) => v as u64,
        Err(_) => 1,
    }
}

fn cells_node(tree: &OfTree, np: usize) -> (r: Option<&DeviceNode>)
    ensures
        r == cells_source(tree, np),
{
    if np >= tree.nodes.len() {
        return None;
    }
    match tree.nodes[np].parent {
        Some(p) => if p < tree.nodes.len() {
            Some(&tree.nodes[p])
        } else {
            Some(&tree.nodes[np])
        },
        None => Some(&tree.nodes[np]),
    }
}

/// `#address-cells` governing node `np`: read from its parent (or itself
/// at the root), 2 when unset.
pub fn of_n_addr_cells(tree: &OfTree, np: usize) -> (r: u64)
    ensures
        r == n_addr_cells_spec(tree, np),
{
    match of_property_read_u32(cells_node(tree, np), "#address-cells") {
        Ok(v) => v as u64,
        Err(_) => 2,
    }
}

/// `#size-cells` governing node `np`: read from its parent (or itself at
/// the root), 1 when unset.
pub fn of_n_size_cells(tree: &OfTree, np: usize) -> (r: u64)
    ensures
        r == n_size_cells_spec(tree, np),
{
    match of_property_read_u32(cells_node(tree, np), "#size-cells") {
        Ok(v) => v as u64,
        Err(_) => 1,
    }
}

/// The `index`-th entry of a node's `reg`: its address cells and its size,
/// with the cell counts of the node's parent. `None` at the root, without
/// `reg`, or past its end.
pub open spec fn get_address_spec(tree: &OfTree, dev: usize, index: usize) -> Option<(Seq<u8>, u64)> {
    if dev >= tree.nodes@.len() {
        None
    } else {
        match tree.nodes@[dev as int].parent {
            None => None,
            Some(p) => if p >= tree.nodes@.len() {
                None
            } else {
                match prop_value(Some(&tree.nodes@[dev as int]), "reg"@) {
                    None => None,
                    Some(reg) => {
                        let na = n_addr_cells_spec(tree, p);
                        let ns = n_size_cells_spec(tree, p);
                        let one = (na + ns) * 4;
                        if reg.len() < (index + 1) * one {
                            None
                        } else {
                            let off = index * one;
                            Some((
                                reg.subrange(off, off + na * 4),
                                read_number_spec(reg.subrange(off + na * 4, reg.len() as int), ns as nat),
                            ))
                        }
                    },
                }
            },
        }
    }
}

/// The address cells and size of the `index`-th `reg` entry of node `dev`.
pub fn of_get_address<'a>(tree: &'a OfTree, dev: usize, index: usize) -> (r: Option<(&'a [u8], u64)>)
    ensures
        get_address_spec(tree, dev, index) is None ==> r is None,
        get_address_spec(tree, dev, index) matches Some(s) ==> (r matches Some(x) && x.0@ == s.0 && x.1 == s.1),
{
    if dev >= tree.nodes.len() {
        return None;
    }
    let p = match tree.nodes[dev].parent {
        None => {
            return None;
        },
        Some(p) => p,
    };
    if p >= tree.nodes.len() {
        return None;
    }
    let reg = match of_get_property(Some(&tree.nodes[dev]), "reg") {
        None => {
            return None;
        },
        Some(r) => r,
    };
    let na = of_n_addr_cells(tree, p);
    let ns = of_n_size_cells(tree, p);
    let one: u64 = (na + ns) * 4;
    let len = reg.len() as u64;
    let idx = index as u64;
    if one > 0 {
        if idx >= len {
            assert((idx + 1) * one > len) by (nonlinear_arith)
                requires
                    idx >= len,
                    one > 0,
            ;
            return None;
        }
        if len / one < idx + 1 {
            assert((idx + 1) * one > len) by (nonlinear_arith)
                requires
                    len / one < idx + 1,
                    one > 0,
            ;
            return None;
        }
        assert((idx + 1) * one <= len) by (nonlinear_arith)
            requires
                len / one >= idx + 1,
                one > 0,
        ;
    }
    assert(idx * one + na * 4 <= len) by (nonlinear_arith)
        requires
            one == 0 ==> na == 0,
            one > 0 ==> (idx + 1) * one <= len,
            one == (na + ns) * 4,
    ;
    let off = (idx * one) as usize;
    let mid = (idx * one + na * 4) as usize;
    let addr = &reg[off..mid];
    let size = of_read_number(&reg[mid..reg.len()], ns as usize);
    Some((addr, size))
}

/// `addr` with its first `n` bytes cleared.
pub open spec fn zero_prefix(addr: Seq<u8>, n: int) -> Seq<u8> {
    Seq::new(addr.len(), |i: int| if i < n { 0u8 } else { addr[i] })
}

/// The parent address of the first `ranges` entry (child address, parent
/// address, size) from entry `k` on that contains `child`.
pub open spec fn range_lookup(ranges: Seq<u8>, child: u64, na: u64, pna: u64, ns: u64, k: nat) -> Option<u64>
    decreases ranges.len() - k,
{
    let rone = na + pna + ns;
    if rone == 0 || (k + 1) * rone > ranges.len() / 4 {
        None
    } else {
        proof {
            assert(k < ranges.len()) by (nonlinear_arith)
                requires
                    (k + 1) * rone <= ranges.len() / 4,
                    rone > 0,
            ;
        }
        let start = k * rone * 4;
        let rc = read_number_spec(ranges.subrange(start, ranges.len() as int), na as nat);
        let rp = read_number_spec(ranges.subrange(start + na * 4, ranges.len() as int), pna as nat);
        let rs = read_number_spec(ranges.subrange(start + (na + pna) * 4, ranges.len() as int), ns as nat);
        if child >= rc && child < u64_specs::wrapping_add(rc, rs) {
            Some(u64_specs::wrapping_add(rp, (child - rc) as u64))
        } else {
            range_lookup(ranges, child, na, pna, ns, k + 1)
        }
    }
}

/// One translation step through a bus's `ranges`: none means the bus does
/// not translate; an empty one maps 1:1; otherwise the first containing
/// entry maps the address. `None` when the step fails.
pub open spec fn translate_one_spec(ranges: Option<Seq<u8>>, addr: Seq<u8>, na: u64, ns: u64, pna: u64) -> Option<Seq<u8>> {
    let child = read_number_spec(addr.subrange(0, na * 4), na as nat);
    match ranges {
        None => None,
        Some(r) => if r.len() == 0 {
            Some(write_number_spec(zero_prefix(addr, pna * 4), child, pna as usize))
        } else {
            match range_lookup(r, child, na, pna, ns, 0) {
                None => None,
                Some(t) => Some(write_number_spec(addr, t, pna as usize)),
            }
        },
    }
}

fn range_search(ranges: &[u8], child: u64, na: u64, pna: u64, ns: u64) -> (r: Option<u64>)
    requires
        na + pna + ns > 0,
        na <= 2,
        pna <= 2,
        ns <= 0xFFFF_FFFF,
    ensures
        r == range_lookup(ranges@, child, na, pna, ns, 0),
{
    let rone = na + pna + ns;
    let _n = ranges.len();
    let cells = (ranges.len() / 4) as u64;
    let mut k: u64 = 0;
    while k < cells / rone
        invariant
            rone == na + pna + ns,
            rone > 0,
            na <= 2,
            pna <= 2,
            cells == ranges@.len() / 4,
            ranges@.len() <= usize::MAX,
            k <= cells / rone,
            range_lookup(ranges@, child, na, pna, ns, k as nat) == range_lookup(ranges@, child, na, pna, ns, 0),
        decreases cells / rone - k,
    {
        assert((k + 1) * rone <= cells) by (nonlinear_arith)
            requires
                k < cells / rone,
                rone > 0,
        ;
        assert(k * rone * 4 + rone * 4 <= ranges@.len()) by (nonlinear_arith)
            requires
                (k + 1) * rone <= cells,
                cells == ranges@.len() / 4,
        ;
        assert(k * rone <= cells) by (nonlinear_arith)
            requires
                (k + 1) * rone <= cells,
                rone > 0,
        ;
        let start = (k * rone * 4) as usize;
        let rc = of_read_number(&ranges[start..ranges.len()], na as usize);
        let ps = start + (na * 4) as usize;
        let rp = of_read_number(&ranges[ps..ranges.len()], pna as usize);
        let ss = start + ((na + pna) * 4) as usize;
        let rs = of_read_number(&ranges[ss..ranges.len()], ns as usize);
        if child >= rc && child < rc.wrapping_add(rs) {
            return Some(rp.wrapping_add(child - rc));
        }
        k = k + 1;
    }
    proof {
        assert((k + 1) * rone > ranges@.len() / 4) by (nonlinear_arith)
            requires
                k >= cells / rone,
                rone > 0,
                cells == ranges@.len() / 4,
        ;
    }
    None
}

/// One translation step of the address `addr` (16 bytes) through the
/// `ranges` of `parent`. Returns whether it succeeded.
pub fn of_translate_one(parent: &DeviceNode, addr: &mut Vec<u8>, na: u64, ns: u64, pna: u64) -> (ok: bool)
    requires
        old(addr)@.len() == 4 * OF_MAX_ADDR_CELLS,
        na <= 2,
        pna <= 2,
        ns <= 0xFFFF_FFFF,
        (prop_value(Some(parent), "ranges"@) matches Some(r) && r.len() > 0) ==> na + pna + ns > 0,
    ensures
        final(addr)@.len() == 4 * OF_MAX_ADDR_CELLS,
        translate_one_spec(prop_value(Some(parent), "ranges"@), old(addr)@, na, ns, pna) is None ==> !ok,
        translate_one_spec(prop_value(Some(parent), "ranges"@), old(addr)@, na, ns, pna) matches Some(a) ==> ok
            && final(addr)@ == a,
{
    let ranges = match of_get_property(Some(parent), "ranges") {
        None => {
            return false;
        },
        Some(r) => r,
    };
    let child = of_read_number(&addr.as_slice()[0..(na * 4) as usize], na as usize);
    if ranges.len() == 0 {
        let mut i: usize = 0;
        while i < (pna * 4) as usize
            invariant
                pna <= 2,
                i <= pna * 4,
                addr@.len() == 4 * OF_MAX_ADDR_CELLS,
                addr@ == zero_prefix(old(addr)@, i as int),
            decreases pna * 4 - i,
        {
            addr.set(i, 0);
            i = i + 1;
            assert(addr@ =~= zero_prefix(old(addr)@, i as int));
        }
        write_number(addr.as_mut_slice(), child, pna as usize);
        return true;
    }
    match range_search(ranges, child, na, pna, ns) {
        None => false,
        Some(t) => {
            write_number(addr.as_mut_slice(), t, pna as usize);
            true
        },
    }
}

/// Whether node `p` has a non-empty `ranges`.
pub open spec fn has_ranges(tree: &OfTree, p: usize) -> bool {
    p < tree.nodes@.len() && (prop_value(Some(&tree.nodes@[p as int]), "ranges"@) matches Some(r) && r.len() > 0)
}

/// The address cell counts from node `i` up to the root suit
/// [`of_translate_address`]: every level has at most 2 address cells, and
/// a level whose bus has `ranges` has non-empty range entries.
pub open spec fn chain_cells_ok(tree: &OfTree, i: usize) -> bool
    decreases i,
{
    &&& i < tree.nodes@.len()
    &&& n_addr_cells_spec(tree, i) <= 2
    &&& match tree.nodes@[i as int].parent {
        None => true,
        Some(p) => p < i && (has_ranges(tree, p) ==> n_addr_cells_spec(tree, i) + n_addr_cells_spec(tree, p)
            + n_size_cells_spec(tree, i) > 0) && chain_cells_ok(tree, p),
    }
}

/// Translation of `addr` (with `na`/`ns` cells) through bus `parent` and
/// its ancestors up to the root.
pub open spec fn translate_levels(tree: &OfTree, parent: usize, addr: Seq<u8>, na: u64, ns: u64) -> u64
    decreases parent,
{
    if parent >= tree.nodes@.len() {
        OF_BAD_ADDR
    } else {
        let pna = n_addr_cells_spec(tree, parent);
        let pns = n_size_cells_spec(tree, parent);
        match translate_one_spec(prop_value(Some(&tree.nodes@[parent as int]), "ranges"@), addr, na, ns, pna) {
            None => OF_BAD_ADDR,
            Some(a2) => match tree.nodes@[parent as int].parent {
                None => read_number_spec(a2.subrange(0, pna * 4), pna as nat),
                Some(pp) => if pp < parent {
                    translate_levels(tree, pp, a2, pna, pns)
                } else {
                    OF_BAD_ADDR
                },
            },
        }
    }
}

/// The 4-cell working copy of an address: its first `na` cells (as far
/// as present), zero-filled.
pub open spec fn addr_copy(in_addr: Seq<u8>, na: u64) -> Seq<u8> {
    Seq::new(16, |i: int| if i < na * 4 && i < in_addr.len() { in_addr[i] } else { 0u8 })
}

/// The CPU physical address of `in_addr` in node `dev`'s bus:
/// untranslated at the root, else through every ancestor's `ranges`;
/// [`OF_BAD_ADDR`] when a step fails.
pub open spec fn translate_spec(tree: &OfTree, dev: usize, in_addr: Seq<u8>) -> u64 {
    if dev >= tree.nodes@.len() {
        OF_BAD_ADDR
    } else {
        match tree.nodes@[dev as int].parent {
            None => read_number_spec(in_addr, n_addr_cells_spec(tree, dev) as nat),
            Some(p) => translate_levels(
                tree,
                p,
                addr_copy(in_addr, n_addr_cells_spec(tree, dev)),
                n_addr_cells_spec(tree, dev),
                n_size_cells_spec(tree, dev),
            ),
        }
    }
}

/// Translate an address of node `dev`'s bus to a CPU physical address.
pub fn of_translate_address(tree: &OfTree, dev: usize, in_addr: &[u8]) -> (r: u64)
    requires
        tree.wf(),
        dev < tree.nodes@.len() ==> chain_cells_ok(tree, dev),
    ensures
        r == translate_spec(tree, dev, in_addr@),
{
    if dev >= tree.nodes.len() {
        return OF_BAD_ADDR;
    }
    let first = match tree.nodes[dev].parent {
        None => {
            return of_read_number(in_addr, of_n_addr_cells(tree, dev) as usize);
        },
        Some(p) => p,
    };
    let na0 = of_n_addr_cells(tree, dev);
    let ns0 = of_n_size_cells(tree, dev);
    let mut addr: Vec<u8> = Vec::new();
    let mut i: usize = 0;
    while i < 16
        invariant
            i <= 16,
            na0 <= 2,
            addr@.len() == i,
            forall|j: int| 0 <= j < i ==> #[trigger] addr@[j] == addr_copy(in_addr@, na0)[j],
        decreases 16 - i,
    {
        let b: u8 = if i < (na0 * 4) as usize && i < in_addr.len() { in_addr[i] } else { 0 };
        addr.push(b);
        i = i + 1;
    }
    assert(addr@ =~= addr_copy(in_addr@, na0));
    let mut parent = first;
    let mut na = na0;
    let mut ns = ns0;
    assert(tree.nodes@[dev as int].parent == Some(first));
    loop
        invariant
            tree.wf(),
            chain_cells_ok(tree, parent),
            na <= 2,
            ns <= 0xFFFF_FFFF,
            has_ranges(tree, parent) ==> na + n_addr_cells_spec(tree, parent) + ns > 0,
            addr@.len() == 16,
            translate_levels(tree, parent, addr@, na, ns) == translate_spec(tree, dev, in_addr@),
        decreases parent,
    {
        let pna = of_n_addr_cells(tree, parent);
        let pns = of_n_size_cells(tree, parent);
        let ghost before = addr@;
        if !of_translate_one(&tree.nodes[parent], &mut addr, na, ns, pna) {
            return OF_BAD_ADDR;
        }
        match tree.nodes[parent].parent {
            None => {
                return of_read_number(&addr.as_slice()[0..(pna * 4) as usize], pna as usize);
            },
            Some(pp) => {
                parent = pp;
                na = pna;
                ns = pns;
            },
        }
    }
}

/// The physical address and size of the `index`-th `reg` entry of `dev`.
pub fn of_address_to_resource(tree: &OfTree, dev: usize, index: usize) -> (r: Result<(u64, u64), AddrError>)
    requires
        tree.wf(),
        dev < tree.nodes@.len() ==> chain_cells_ok(tree, dev),
    ensures
        get_address_spec(tree, dev, index) is None ==> r == Err::<(u64, u64), AddrError>(AddrError::Invalid),
        get_address_spec(tree, dev, index) matches Some(a) ==> if translate_spec(tree, dev, a.0) == OF_BAD_ADDR {
            r == Err::<(u64, u64), AddrError>(AddrError::TranslateFailed)
        } else {
            r == Ok::<(u64, u64), AddrError>((translate_spec(tree, dev, a.0), a.1))
        },
        r == of_address_to_resource_spec(tree, dev, index),
{
    proof {
        reveal(of_address_to_resource_spec);
    }
    let (addr, size) = match of_get_address(tree, dev, index) {
        None => {
            return Err(AddrError::Invalid);
        },
        Some(x) => x,
    };
    let phys = of_translate_address(tree, dev, addr);
    if phys == OF_BAD_ADDR {
        return Err(AddrError::TranslateFailed);
    }
    Ok((phys, size))
}

/// The physical address the `index`-th `reg` entry of `dev` maps to (the
/// kernel maps it 1:1), if it translates.
pub fn of_iomap(tree: &OfTree, dev: usize, index: usize) -> (r: Option<u64>)
    requires
        tree.wf(),
        dev < tree.nodes@.len() ==> chain_cells_ok(tree, dev),
    ensures
        match of_address_to_resource_spec(tree, dev, index) {
            Ok(x) => r == Some(x.0),
            Err(_) => r is None,
        },
{
    match of_address_to_resource(tree, dev, index) {
        Ok((phys, _size)) => Some(phys),
        Err(_) => None,
    }
}

/// What [`of_address_to_resource`] returns.
#[verifier::opaque]
pub open spec fn of_address_to_resource_spec(tree: &OfTree, dev: usize, index: usize) -> Result<(u64, u64), AddrError> {
    match get_address_spec(tree, dev, index) {
        None => Err(AddrError::Invalid),
        Some(a) => if translate_spec(tree, dev, a.0) == OF_BAD_ADDR {
            Err(AddrError::TranslateFailed)
        } else {
            Ok((translate_spec(tree, dev, a.0), a.1))
        },
    }
}

} // verus!
