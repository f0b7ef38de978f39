//! Platform devices created from device tree nodes: their memory
//! resources from `reg`, their interrupt resources, and the population of
//! a whole tree under the bus nodes that a match table names.
use vstd::prelude::*;
use crate::of::address::{chain_cells_ok, of_address_to_resource, of_address_to_resource_spec};
use crate::of::base::{
    DeviceNode, OfTree, available, compat_score, of_device_is_available, of_device_is_compatible, of_get_property,
    of_property_read_u32, prop_value, read_u32_spec,
};
use crate::of::irq::{IrqDomains, PhandleCache, of_irq_to_resource};
use crate::text::{decimal, indexed_name, strlist_find};
use vstd::string::StringSliceAdditionalSpecFns;

verus! {

/// A platform device made from a device tree node.
pub struct PlatformDevice {
    pub name: String,
    /// Device id (-1: none).
    pub id: i32,
    /// The node it was made from.
    pub of_node: Option<usize>,
    pub resources: Vec<Resource>,
    pub num_resources: usize,
}

/// Resource kinds.
#[derive(Debug, Clone, Copy, PartialEq, Eq, Structural)]
pub enum ResourceType {
    Mem,
    Io,
    Irq,
    Dma,
}

/// A device resource: an address or IRQ range.
pub struct Resource {
    pub name: String,
    pub start: u64,
    pub end: u64,
    pub res_type: ResourceType,
    pub flags: u32,
}

/// A match table entry.
pub struct OfDeviceId {
    pub compatible: String,
}

/// Platform device creation errors.
#[derive(Debug, Clone, Copy, PartialEq, Eq, Structural)]
pub enum PlatformError {
    Invalid,
    NoMemory,
    NotAvailable,
    AlreadyPopulated,
}

/// Compatible strings of nodes that never become devices.
pub fn skipped_compatibles() -> (r: Vec<&'static str>)
    ensures
        r@.len() == 1,
        r@[0]@ == "operating-points-v2"@,
{
    let mut v: Vec<&'static str> = Vec::new();
    v.push("operating-points-v2");
    v
}

/// Number of `reg` entries of node `np`: its `reg` size over the entry
/// size its parent's `#address-cells` (default 2) and `#size-cells`
/// (default 1) give; 0 without `reg`, at the root, or for 0-sized entries.
pub open spec fn address_count_spec(tree: &OfTree, np: usize) -> u64 {
    if np >= tree.nodes@.len() {
        0
    } else {
        match prop_value(Some(&tree.nodes@[np as int]), "reg"@) {
            None => 0,
            Some(reg) => match tree.nodes@[np as int].parent {
                None => 0,
                Some(p) => if p >= tree.nodes@.len() {
                    0
                } else {
                    let pn = &tree.nodes@[p as int];
                    let na: u64 = match read_u32_spec(prop_value(Some(pn), "#address-cells"@)) {
                        Ok(v) => v as u64,
                        Err(_) => 2,
                    };
                    let ns: u64 = match read_u32_spec(prop_value(Some(pn), "#size-cells"@)) {
                        Ok(v) => v as u64,
                        Err(_) => 1,
                    };
                    let e: int = (na + ns) * 4;
                    if e == 0 {
                        0
                    } else {
                        (reg.len() as int / e) as u64
                    }
                },
            },
        }
    }
}

/// Count the `reg` entries of node `np`.
pub fn of_address_count(tree: &OfTree, np: usize) -> (r: u64)
    ensures
        r == address_count_spec(tree, np),
        r <= usize::MAX,
{
    if np >= tree.nodes.len() {
        return 0;
    }
    let reg = match of_get_property(Some(&tree.nodes[np]), "reg") {
        None => {
            return 0;
        },
        Some(r) => r,
    };
    let p = match tree.nodes[np].parent {
        None => {
            return 0;
        },
        Some(p) => p,
    };
    if p >= tree.nodes.len() {
        return 0;
    }
    let pn = &tree.nodes[p];
    let na: u64 = match of_property_read_u32(Some(pn), "#address-cells") {
        Ok(v) => v as u64,
        Err(_) => 2,
    };
    let ns: u64 = match of_property_read_u32(Some(pn), "#size-cells") {
        Ok(v) => v as u64,
        Err(_) => 1,
    };
    let e = (na + ns) * 4;
    if e == 0 {
        return 0;
    }
    let n = reg.len() as u64;
    assert(n / e <= n) by (nonlinear_arith)
        requires
            e > 0,
    ;
    n / e
}

/// The memory resources a node's `reg` entries `0..k` give: one for each
/// entry that translates, named `reg<i>`, spanning `[start, start+size-1]`
/// (wrapping).
pub open spec fn mem_resources(tree: &OfTree, np: usize, k: nat) -> Seq<(u64, u64, nat)>
    decreases k,
{
    if k == 0 {
        seq![]
    } else {
        let prev = mem_resources(tree, np, (k - 1) as nat);
        match of_address_to_resource_spec(tree, np, (k - 1) as usize) {
            Ok(x) => prev.push((x.0, vstd::wrapping::u64_specs::wrapping_sub(
                vstd::wrapping::u64_specs::wrapping_add(x.0, x.1),
                1,
            ), (k - 1) as nat)),
            Err(_) => prev,
        }
    }
}

/// The length of property `name` of `n` (0 when it has none).
pub open spec fn prop_len(n: &DeviceNode, name: Seq<char>) -> int {
    match prop_value(Some(n), name) {
        Some(v) => v.len() as int,
        None => 0,
    }
}

/// The larger length of `interrupts` and `interrupts-extended`, one less
/// when that is `usize::MAX`.
pub open spec fn irq_bound_spec(n: &DeviceNode) -> int {
    let a = prop_len(n, "interrupts"@);
    let e = prop_len(n, "interrupts-extended"@);
    let m = if a > e { a } else { e };
    if m == usize::MAX { m - 1 } else { m }
}

/// An index past every interrupt a node can describe: each entry of
/// `interrupts` or `interrupts-extended` takes at least one byte.
fn irq_index_bound(n: &DeviceNode) -> (b: usize)
    ensures
        b < usize::MAX,
        b == irq_bound_spec(n),
{
    let a: usize = match of_get_property(Some(n), "interrupts") {
        Some(v) => v.len(),
        None => 0,
    };
    let e: usize = match of_get_property(Some(n), "interrupts-extended") {
        Some(v) => v.len(),
        None => 0,
    };
    let m = if a > e { a } else { e };
    if m == usize::MAX { m - 1 } else { m }
}

/// Builds the platform device of node `np`, named `bus_id` or the node's
/// name: a memory resource per translatable `reg` entry, then an IRQ
/// resource per interrupt, in order, until the first that does not parse.
pub fn of_device_alloc(
    tree: &OfTree,
    cache: &PhandleCache,
    doms: &IrqDomains,
    np: usize,
    bus_id: Option<&str>,
) -> (r: Result<PlatformDevice, PlatformError>)
    requires
        tree.wf(),
        np < tree.nodes@.len(),
        chain_cells_ok(tree, np),
    ensures
        r matches Ok(d) && {
            let mem = mem_resources(tree, np, address_count_spec(tree, np) as nat);
            &&& d.name@ == match bus_id {
                Some(b) => b@,
                None => tree.nodes@[np as int].name@,
            }
            &&& d.id == -1
            &&& d.of_node == Some(np)
            &&& d.num_resources == d.resources@.len()
            &&& d.resources@.len() >= mem.len()
            &&& forall|k: int| 0 <= k < mem.len() ==> {
                let res = #[trigger] d.resources@[k];
                &&& res.start == mem[k].0
                &&& res.end == mem[k].1
                &&& res.res_type == ResourceType::Mem
                &&& res.flags == 0
                &&& res.name@ == "reg"@ + decimal(mem[k].2)
            }
            &&& forall|k: int| mem.len() <= k < d.resources@.len() ==> {
                let res = #[trigger] d.resources@[k];
                &&& res.res_type == ResourceType::Irq
                &&& res.start == res.end
                &&& res.name@ == "irq"@ + decimal((k - mem.len()) as nat)
            }
        },
{
    let name = match bus_id {
        Some(b) => b.to_owned(),
        None => tree.nodes[np].name.as_str().to_owned(),
    };
    let mut resources: Vec<Resource> = Vec::new();
    let num_reg = of_address_count(tree, np);
    let mut i: u64 = 0;
    while i < num_reg
        invariant
            tree.wf(),
            np < tree.nodes@.len(),
            chain_cells_ok(tree, np),
            i <= num_reg,
            num_reg <= usize::MAX,
            num_reg == address_count_spec(tree, np),
            resources@.len() == mem_resources(tree, np, i as nat).len(),
            forall|k: int| 0 <= k < resources@.len() ==> {
                let res = #[trigger] resources@[k];
                let m = mem_resources(tree, np, i as nat)[k];
                &&& res.start == m.0
                &&& res.end == m.1
                &&& res.res_type == ResourceType::Mem
                &&& res.flags == 0
                &&& res.name@ == "reg"@ + decimal(m.2)
            },
        decreases num_reg - i,
    {
        {
            let idx = i as usize;
            match of_address_to_resource(tree, np, idx) {
                Ok((start, size)) => {
                    proof {
                        reveal_strlit("reg");
                    }
                    resources.push(
                        Resource {
                            name: indexed_name("reg", idx),
                            start,
                            end: start.wrapping_add(size).wrapping_sub(1),
                            res_type: ResourceType::Mem,
                            flags: 0,
                        },
                    );
                },
                Err(_) => {},
            }
        }
        i = i + 1;
    }
    let ghost nmem = resources@.len();
    let ghost memres = resources@;
    let bound: usize = irq_index_bound(&tree.nodes[np]);
    let mut irq_index: usize = 0;
    while irq_index <= bound
        invariant
            bound < usize::MAX,
            irq_index <= bound + 1,
            resources@.len() == nmem + irq_index,
            forall|k: int| 0 <= k < nmem ==> #[trigger] resources@[k] == memres[k],
            forall|k: int| nmem <= k < resources@.len() ==> {
                let res = #[trigger] resources@[k];
                &&& res.res_type == ResourceType::Irq
                &&& res.start == res.end
                &&& res.name@ == "irq"@ + decimal((k - nmem) as nat)
            },
        decreases bound + 1 - irq_index,
    {
        match of_irq_to_resource(tree, cache, doms, np, irq_index) {
            Ok((irq, flags)) => {
                proof {
                    reveal_strlit("irq");
                }
                resources.push(
                    Resource {
                        name: indexed_name("irq", irq_index),
                        start: irq as u64,
                        end: irq as u64,
                        res_type: ResourceType::Irq,
                        flags,
                    },
                );
                irq_index = irq_index + 1;
            },
            Err(_) => {
                break;
            },
        }
    }
    let n = resources.len();
    Ok(PlatformDevice { name, id: -1, of_node: Some(np), resources, num_resources: n })
}

/// Create the platform device of node `np`; `NotAvailable` when its
/// status says it is not.
pub fn of_platform_device_create(
    tree: &OfTree,
    cache: &PhandleCache,
    doms: &IrqDomains,
    np: usize,
    bus_id: Option<&str>,
) -> (r: Result<PlatformDevice, PlatformError>)
    requires
        tree.wf(),
        np < tree.nodes@.len(),
        chain_cells_ok(tree, np),
    ensures
        !available(Some(&tree.nodes@[np as int])) ==> r == Err::<PlatformDevice, PlatformError>(PlatformError::NotAvailable),
        available(Some(&tree.nodes@[np as int])) ==> (r matches Ok(d) && d.of_node == Some(np) && d.id == -1),
{
    if !of_device_is_available(Some(&tree.nodes[np])) {
        return Err(PlatformError::NotAvailable);
    }
    of_device_alloc(tree, cache, doms, np, bus_id)
}

/// Whether a node is compatible (positive score) with some entry of a
/// match table.
pub open spec fn matches_table(n: &DeviceNode, matches: Seq<&str>) -> bool {
    exists|k: int| 0 <= k < matches.len() && #[trigger] compatible_with(n, matches[k])
}

/// Whether a node is compatible (positive score) with `c`.
pub open spec fn compatible_with(n: &DeviceNode, c: &str) -> bool {
    prop_value(Some(n), "compatible"@) matches Some(v) && (strlist_find(v, c.spec_bytes(), 0, 0) matches Some(i)
        && compat_score(i as usize) > 0)
}

/// Whether a node matches an entry of `matches`.
pub fn of_match_node(matches: &[&str], node: &DeviceNode) -> (r: bool)
    ensures
        r == matches_table(node, matches@),
{
    let mut k: usize = 0;
    while k < matches.len()
        invariant
            k <= matches@.len(),
            forall|j: int| 0 <= j < k ==> !#[trigger] compatible_with(node, matches@[j]),
        decreases matches@.len() - k,
    {
        if of_device_is_compatible(Some(node), matches[k]) > 0 {
            assert(compatible_with(node, matches@[k as int]));
            return true;
        }
        k = k + 1;
    }
    false
}

/// Whether a node is of a kind the bus walk skips.
pub fn should_skip_node(node: &DeviceNode) -> (r: bool)
    ensures
        r == compatible_with(node, "operating-points-v2"),
{
    of_device_is_compatible(Some(node), "operating-points-v2") > 0
}

/// Children come after their parent.
pub open spec fn children_ok(tree: &OfTree) -> bool {
    forall|i: int, j: int|
        0 <= i < tree.nodes@.len() && 0 <= j < tree.nodes@[i].children@.len() ==> i < #[trigger] tree.nodes@[i].children@[j]
            < tree.nodes@.len()
}

/// Every node's address translation stays within what the translator handles.
pub open spec fn all_cells_ok(tree: &OfTree) -> bool {
    forall|i: usize| i < tree.nodes@.len() ==> #[trigger] chain_cells_ok(tree, i)
}

/// The nodes a bus walk from `bus` makes devices for, in order: the bus
/// itself when it matches (and is available), then each child's walk, in
/// order. A strict walk stops at nodes without `compatible`; a skipped
/// node stops the walk.
pub open spec fn bus_walk(tree: &OfTree, bus: usize, matches: Seq<&str>, strict: bool) -> Seq<usize>
    decreases tree.nodes@.len() - bus, 1nat, 0nat,
{
    if bus >= tree.nodes@.len() {
        seq![]
    } else {
        let n = &tree.nodes@[bus as int];
        if strict && prop_value(Some(n), "compatible"@) is None {
            seq![]
        } else if compatible_with(n, "operating-points-v2") {
            seq![]
        } else if matches_table(n, matches) && !available(Some(n)) {
            seq![]
        } else {
            let me: Seq<usize> = if matches_table(n, matches) { seq![bus] } else { seq![] };
            me + children_walk(tree, bus, 0, matches, strict)
        }
    }
}

/// The walks of the children `j..` of `bus`, concatenated.
pub open spec fn children_walk(tree: &OfTree, bus: usize, j: nat, matches: Seq<&str>, strict: bool) -> Seq<usize>
    decreases tree.nodes@.len() - bus, 0nat, tree.nodes@[bus as int].children@.len() - j,
{
    if bus >= tree.nodes@.len() || j >= tree.nodes@[bus as int].children@.len() {
        seq![]
    } else {
        let c = tree.nodes@[bus as int].children@[j as int];
        if bus < c && c < tree.nodes@.len() {
            bus_walk(tree, c, matches, strict) + children_walk(tree, bus, j + 1, matches, strict)
        } else {
            seq![]
        }
    }
}

/// Create the devices of bus node `bus` and its descendants (see
/// [`bus_walk`]).
pub fn of_platform_bus_create(
    tree: &OfTree,
    cache: &PhandleCache,
    doms: &IrqDomains,
    bus: usize,
    matches: &[&str],
    strict: bool,
) -> (r: Result<Vec<PlatformDevice>, PlatformError>)
    requires
        tree.wf(),
        children_ok(tree),
        all_cells_ok(tree),
    ensures
        r matches Ok(devs) && devs@.len() == bus_walk(tree, bus, matches@, strict).len() && forall|k: int|
            0 <= k < devs@.len() ==> (#[trigger] devs@[k]).of_node == Some(bus_walk(tree, bus, matches@, strict)[k]),
    decreases tree.nodes@.len() - bus,
{
    let mut devices: Vec<PlatformDevice> = Vec::new();
    if bus >= tree.nodes.len() {
        return Ok(devices);
    }
    let n = &tree.nodes[bus];
    if strict && of_get_property(Some(n), "compatible").is_none() {
        return Ok(devices);
    }
    if should_skip_node(n) {
        return Ok(devices);
    }
    let ghost me: Seq<usize> = if matches_table(n, matches@) { seq![bus] } else { seq![] };
    if of_match_node(matches, n) {
        assert(chain_cells_ok(tree, bus));
        match of_platform_device_create(tree, cache, doms, bus, None) {
            Ok(d) => devices.push(d),
            Err(_) => {
                return Ok(devices);
            },
        }
    }
    assert(devices_nodes_prefix(devices@) =~= me);
    let mut j: usize = 0;
    while j < n.children.len()
        invariant
            tree.wf(),
            children_ok(tree),
            all_cells_ok(tree),
            bus < tree.nodes@.len(),
            n == &tree.nodes@[bus as int],
            j <= n.children@.len(),
            forall|k: int| 0 <= k < devices@.len() ==> (#[trigger] devices@[k]).of_node is Some,
            bus_walk(tree, bus, matches@, strict) == me + children_walk(tree, bus, 0, matches@, strict),
            me + children_walk(tree, bus, 0, matches@, strict) == devices_nodes_prefix(devices@) + children_walk(
                tree,
                bus,
                j as nat,
                matches@,
                strict,
            ),
        decreases n.children@.len() - j,
    {
        let c = n.children[j];
        assert(bus < c < tree.nodes@.len());
        let sub = of_platform_bus_create(tree, cache, doms, c, matches, strict);
        match sub {
            Ok(mut child_devs) => {
                let ghost before = devices@;
                devices.append(&mut child_devs);
                proof {
                    assert(devices_nodes_prefix(devices@) =~= devices_nodes_prefix(before) + bus_walk(
                        tree,
                        c,
                        matches@,
                        strict,
                    ));
                    assert(children_walk(tree, bus, j as nat, matches@, strict) == bus_walk(tree, c, matches@, strict)
                        + children_walk(tree, bus, (j + 1) as nat, matches@, strict));
                    assert(devices_nodes_prefix(before) + (bus_walk(tree, c, matches@, strict) + children_walk(
                        tree,
                        bus,
                        (j + 1) as nat,
                        matches@,
                        strict,
                    )) =~= devices_nodes_prefix(devices@) + children_walk(tree, bus, (j + 1) as nat, matches@, strict));
                }
            },
            Err(_) => {},
        }
        j = j + 1;
    }
    proof {
        assert(children_walk(tree, bus, j as nat, matches@, strict) =~= Seq::<usize>::empty());
        assert(devices_nodes_prefix(devices@) + Seq::<usize>::empty() =~= devices_nodes_prefix(devices@));
        assert forall|k: int| 0 <= k < devices@.len() implies (#[trigger] devices@[k]).of_node == Some(
            bus_walk(tree, bus, matches@, strict)[k],
        ) by {
            assert(devices_nodes_prefix(devices@)[k] == devices@[k].of_node.unwrap());
        }
    }
    Ok(devices)
}

/// The nodes the devices were made from.
pub open spec fn devices_nodes_prefix(devs: Seq<PlatformDevice>) -> Seq<usize> {
    Seq::new(devs.len(), |k: int| devs[k].of_node.unwrap())
}

/// The match table used when none is given.
pub fn default_matches() -> (r: Vec<&'static str>)
    ensures
        r@.len() == 4,
        r@[0]@ == "simple-bus"@,
        r@[1]@ == "simple-mfd"@,
        r@[2]@ == "isa"@,
        r@[3]@ == "arm,amba-bus"@,
{
    let mut v: Vec<&'static str> = Vec::new();
    v.push("simple-bus");
    v.push("simple-mfd");
    v.push("isa");
    v.push("arm,amba-bus");
    v
}

/// Create the devices of the tree under `root`: a strict bus walk of each
/// child of the root, in order, with `matches` (or [`default_matches`]).
/// `Invalid` without a root.
pub fn of_platform_populate(
    tree: &OfTree,
    cache: &PhandleCache,
    doms: &IrqDomains,
    root: Option<usize>,
    matches: Option<&[&str]>,
) -> (r: Result<Vec<PlatformDevice>, PlatformError>)
    requires
        tree.wf(),
        children_ok(tree),
        all_cells_ok(tree),
    ensures
        root is None ==> r == Err::<Vec<PlatformDevice>, PlatformError>(PlatformError::Invalid),
        root is Some && root.unwrap() < tree.nodes@.len() && matches is Some ==> (r matches Ok(devs) && devs@.len()
            == children_walk(tree, root.unwrap(), 0, matches.unwrap()@, true).len()),
        root is Some ==> r is Ok,
{
    let rt = match root {
        None => {
            return Err(PlatformError::Invalid);
        },
        Some(r) => r,
    };
    let dflt = default_matches();
    let table: &[&str] = match matches {
        Some(m) => m,
        None => dflt.as_slice(),
    };
    let mut devices: Vec<PlatformDevice> = Vec::new();
    if rt >= tree.nodes.len() {
        return Ok(devices);
    }
    let n = &tree.nodes[rt];
    let mut j: usize = 0;
    while j < n.children.len()
        invariant
            tree.wf(),
            children_ok(tree),
            all_cells_ok(tree),
            rt < tree.nodes@.len(),
            n == &tree.nodes@[rt as int],
            j <= n.children@.len(),
            devices@.len() + children_walk(tree, rt, j as nat, table@, true).len() == children_walk(
                tree,
                rt,
                0,
                table@,
                true,
            ).len(),
        decreases n.children@.len() - j,
    {
        let c = n.children[j];
        match of_platform_bus_create(tree, cache, doms, c, table, true) {
            Ok(mut child_devs) => {
                devices.append(&mut child_devs);
            },
            Err(_) => {},
        }
        j = j + 1;
    }
    Ok(devices)
}

/// [`of_platform_populate`] with the default match table.
pub fn of_platform_default_populate(tree: &OfTree, cache: &PhandleCache, doms: &IrqDomains, root: Option<usize>) -> (r:
    Result<Vec<PlatformDevice>, PlatformError>)
    requires
        tree.wf(),
        children_ok(tree),
        all_cells_ok(tree),
    ensures
        root is None ==> r == Err::<Vec<PlatformDevice>, PlatformError>(PlatformError::Invalid),
        root is Some ==> r is Ok,
{
    of_platform_populate(tree, cache, doms, root, None)
}

} // verus!
