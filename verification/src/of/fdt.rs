//! Unflattening a flattened device tree into an [`OfTree`].
//!
//! The flattened tree arrives as an [`FdtParser`]: its header magic and its
//! nodes in structure-block order, each with its path, depth and
//! properties.
use vstd::prelude::*;
pub use crate::of::base::FdtError;
use crate::of::base::{
    DeviceNode, OfTree, Property, last_index_of, lemma_last_index_bounds, lemma_prop_index_bounds, prop_index,
    rfind_byte, sbytes, status_is_ok, status_ok,
};
use crate::of::cells::{be32, read_be32};
use crate::text::{bytes_eq, lemma_str_bytes_eq, str_eq, trim_nul, trimmed_len, utf8_str};
use vstd::string::StringSliceAdditionalSpecFns;
use vstd::utf8::valid_utf8;

verus! {

/// Deepest node level the unflattener accepts.
pub const FDT_MAX_DEPTH: usize = 64;

/// Magic number of a flattened device tree header.
pub const FDT_MAGIC: u32 = 0xd00d_feed;

/// One node of a flattened tree.
pub struct FdtNodeEntry {
    /// Full path of the node.
    pub path: String,
    /// Depth of the node (0 for the root).
    pub depth: usize,
    pub properties: Vec<Property>,
}

/// A parsed flattened device tree.
pub struct FdtParser {
    pub magic: u32,
    /// Nodes in structure-block order.
    pub nodes: Vec<FdtNodeEntry>,
}

/// The first entry named `path`.
pub open spec fn entry_index(nodes: Seq<FdtNodeEntry>, path: Seq<char>, i: int) -> Option<int>
    decreases nodes.len() - i,
{
    if i < 0 || i >= nodes.len() {
        None
    } else if nodes[i].path@ == path {
        Some(i)
    } else {
        entry_index(nodes, path, i + 1)
    }
}

/// The value of property `name` of the first node at `path`.
pub open spec fn fdt_prop(p: &FdtParser, path: Seq<char>, name: Seq<char>) -> Option<Seq<u8>> {
    match entry_index(p.nodes@, path, 0) {
        None => None,
        Some(i) => match prop_index(p.nodes@[i].properties@, name, 0) {
            None => None,
            Some(k) => Some(p.nodes@[i].properties@[k].value@),
        },
    }
}

proof fn lemma_entry_index_bounds(nodes: Seq<FdtNodeEntry>, path: Seq<char>, i: int)
    requires
        0 <= i,
    ensures
        entry_index(nodes, path, i) matches Some(k) ==> i <= k < nodes.len(),
    decreases nodes.len() - i,
{
    if i < nodes.len() {
        lemma_entry_index_bounds(nodes, path, i + 1);
    }
}

/// The value of property `name` in a property list.
fn find_in<'a>(props: &'a Vec<Property>, name: &str) -> (r: Option<&'a [u8]>)
    ensures
        prop_index(props@, name@, 0) is None ==> r is None,
        prop_index(props@, name@, 0) matches Some(k) ==> (r matches Some(v) && v@ == props@[k].value@),
{
    let mut i: usize = 0;
    while i < props.len()
        invariant
            i <= props@.len(),
            prop_index(props@, name@, i as int) == prop_index(props@, name@, 0),
        decreases props@.len() - i,
    {
        if str_eq(props[i].name.as_str(), name) {
            return Some(props[i].value.as_slice());
        }
        i = i + 1;
    }
    None
}

impl FdtParser {
    /// The value of property `name` of the node at `node_path`.
    pub fn read_property(&self, node_path: &str, name: &str) -> (r: Option<&[u8]>)
        ensures
            fdt_prop(self, node_path@, name@) is None ==> r is None,
            fdt_prop(self, node_path@, name@) matches Some(v) ==> (r matches Some(s) && s@ == v),
    {
        let mut i: usize = 0;
        while i < self.nodes.len()
            invariant
                i <= self.nodes@.len(),
                entry_index(self.nodes@, node_path@, i as int) == entry_index(self.nodes@, node_path@, 0),
            decreases self.nodes@.len() - i,
        {
            if str_eq(self.nodes[i].path.as_str(), node_path) {
                return find_in(&self.nodes[i].properties, name);
            }
            i = i + 1;
        }
        None
    }
}

/// Whether the node at `node_path` is available: no `status` property, or
/// one that reads `okay` or `ok` (trailing NULs ignored).
pub fn of_fdt_device_is_available(parser: &FdtParser, node_path: &str) -> (r: bool)
    ensures
        r == match fdt_prop(parser, node_path@, "status"@) {
            None => true,
            Some(v) => status_ok(v),
        },
{
    match parser.read_property(node_path, "status") {
        None => true,
        Some(status) => status_is_ok(status),
    }
}

/// The bytes of `b` after its last `/`.
pub open spec fn after_last_slash(b: Seq<u8>) -> Seq<u8> {
    match last_index_of(b, 0x2Fu8, b.len() as int) {
        None => b,
        Some(k) => b.subrange(k + 1, b.len() as int),
    }
}

/// The bytes of `b` before its last `@`.
pub open spec fn before_last_at(b: Seq<u8>) -> Seq<u8> {
    match last_index_of(b, 0x40u8, b.len() as int) {
        None => b,
        Some(k) => b.subrange(0, k),
    }
}

/// The name a node gets when it has no `name` property: its unit name
/// without the unit address.
pub open spec fn unit_name(nodename: Seq<u8>) -> Seq<u8> {
    after_last_slash(before_last_at(nodename))
}

/// The bytes after the last `/`.
pub fn after_slash(b: &[u8]) -> (r: &[u8])
    ensures
        r@ == after_last_slash(b@),
{
    let _n = b.len();
    proof {
        lemma_last_index_bounds(b@, 0x2Fu8, b@.len() as int);
    }
    match rfind_byte(b, 0x2F) {
        None => b,
        Some(k) => &b[k + 1..b.len()],
    }
}

/// The name of a node without its unit address (`uart@fe001000` gives
/// `uart`).
pub fn fdt_node_name(nodename: &[u8]) -> (r: &[u8])
    ensures
        r@ == unit_name(nodename@),
{
    proof {
        lemma_last_index_bounds(nodename@, 0x40u8, nodename@.len() as int);
    }
    let base = match rfind_byte(nodename, 0x40) {
        None => nodename,
        Some(k) => &nodename[0..k],
    };
    after_slash(base)
}

/// A string made of `b` when it is valid UTF-8, else of `fallback`.
pub open spec fn string_or(b: Seq<u8>, fallback: Seq<char>) -> Seq<char> {
    if valid_utf8(b) {
        vstd::utf8::decode_utf8(b)
    } else {
        fallback
    }
}

fn string_from(b: &[u8], fallback: &str) -> (r: String)
    ensures
        r@ == string_or(b@, fallback@),
{
    match utf8_str(b) {
        Some(s) => {
            proof {
                vstd::utf8::encode_utf8_decode_utf8(s@);
            }
            s.to_owned()
        },
        None => fallback.to_owned(),
    }
}

fn copy_property(p: &Property) -> (r: Property)
    ensures
        r.name@ == p.name@,
        r.value@ == p.value@,
{
    let mut v: Vec<u8> = Vec::new();
    let mut k: usize = 0;
    while k < p.value.len()
        invariant
            k <= p.value@.len(),
            v@ == p.value@.subrange(0, k as int),
        decreases p.value@.len() - k,
    {
        v.push(p.value[k]);
        k = k + 1;
        assert(v@ =~= p.value@.subrange(0, k as int));
    }
    assert(v@ =~= p.value@);
    Property { name: p.name.as_str().to_owned(), value: v }
}

/// Whether a property name marks a phandle.
pub open spec fn is_phandle_name(n: Seq<char>) -> bool {
    n == "phandle"@ || n == "linux,phandle"@ || n == "ibm,phandle"@
}

/// The phandle a node ends with after its properties `props[..k]`.
pub open spec fn phandle_after(props: Seq<Property>, k: int) -> u32
    decreases k,
{
    if k <= 0 || k > props.len() {
        0
    } else {
        let prev = phandle_after(props, k - 1);
        let p = props[k - 1];
        if is_phandle_name(p.name@) && p.value@.len() >= 4 && (prev == 0 || p.name@ == "ibm,phandle"@) {
            be32(p.value@, 0)
        } else {
            prev
        }
    }
}

fn is_phandle_prop(n: &str) -> (r: bool)
    ensures
        r == is_phandle_name(n@),
{
    str_eq(n, "phandle") || str_eq(n, "linux,phandle") || str_eq(n, "ibm,phandle")
}

/// The properties of a node made from entry `e`: the entry's own
/// properties, then, when none of them is `name`, a `name` property holding
/// the unit name of `nodename`; the phandle comes from the phandle
/// properties, `ibm,phandle` taking precedence.
pub open spec fn properties_from_entry(n: DeviceNode, e: FdtNodeEntry, nodename: Seq<u8>) -> bool {
    let props = e.properties@;
    &&& n.properties@.len() >= props.len()
    &&& forall|j: int| 0 <= j < props.len() ==> (#[trigger] n.properties@[j]).name@ == props[j].name@
        && n.properties@[j].value@ == props[j].value@
    &&& prop_index(props, "name"@, 0) is Some ==> n.properties@.len() == props.len()
    &&& prop_index(props, "name"@, 0) is None ==> n.properties@.len() == props.len() + 1 && n.properties@[props.len() as int].name@
        == "name"@ && n.properties@[props.len() as int].value@ == unit_name(nodename)
    &&& n.phandle == phandle_after(props, props.len() as int)
}

/// Fill a node that has no properties yet with those of entry `e`
/// (see [`properties_from_entry`]); nothing else of the node changes.
fn populate_properties(e: &FdtNodeEntry, np: &mut DeviceNode, nodename: &[u8])
    requires
        old(np).properties@.len() == 0,
        old(np).phandle == 0,
    ensures
        properties_from_entry(*final(np), *e, nodename@),
        final(np).name == old(np).name && final(np).full_name == old(np).full_name,
        final(np).parent == old(np).parent && final(np).children == old(np).children,
{
    let mut has_name = false;
    let mut i: usize = 0;
    while i < e.properties.len()
        invariant
            i <= e.properties@.len(),
            np.name == old(np).name && np.full_name == old(np).full_name,
            np.parent == old(np).parent && np.children == old(np).children,
            np.properties@.len() == i,
            forall|j: int| 0 <= j < i ==> (#[trigger] np.properties@[j]).name@ == e.properties@[j].name@
                && np.properties@[j].value@ == e.properties@[j].value@,
            np.phandle == phandle_after(e.properties@, i as int),
            has_name == (prop_index(e.properties@.subrange(0, i as int), "name"@, 0) is Some),
        decreases e.properties@.len() - i,
    {
        let p = &e.properties[i];
        proof {
            lemma_prefix_prop_index(e.properties@, "name"@, i as int);
        }
        if str_eq(p.name.as_str(), "name") {
            has_name = true;
        }
        if is_phandle_prop(p.name.as_str()) && p.value.len() >= 4 {
            let ph = read_be32(p.value.as_slice(), 0);
            if np.phandle == 0 || str_eq(p.name.as_str(), "ibm,phandle") {
                np.phandle = ph;
            }
        }
        np.properties.push(copy_property(p));
        i = i + 1;
    }
    proof {
        assert(e.properties@.subrange(0, i as int) =~= e.properties@);
    }
    if !has_name {
        let base = fdt_node_name(nodename);
        let mut v: Vec<u8> = Vec::new();
        let mut k: usize = 0;
        while k < base.len()
            invariant
                k <= base@.len(),
                v@ == base@.subrange(0, k as int),
            decreases base@.len() - k,
        {
            v.push(base[k]);
            k = k + 1;
            assert(v@ =~= base@.subrange(0, k as int));
        }
        assert(v@ =~= base@);
        np.properties.push(Property { name: "name".to_owned(), value: v });
    }
}

/// The unflattener's view of a node it created from entry `e`: named after
/// the last component of the entry's path, with the entry's properties
/// (see [`properties_from_entry`]).
pub open spec fn node_from_entry(n: DeviceNode, e: FdtNodeEntry) -> bool {
    let nodename = after_last_slash(sbytes(e.path@));
    &&& n.full_name@ == string_or(nodename, e.path@)
    &&& properties_from_entry(n, e, nodename)
}

/// Build the node for entry `e`, with parent `parent` and no children. Its
/// name is the value of its `name` property up to the first NUL when that
/// is UTF-8, else its unit name, and `<NULL>` when that is empty.
fn populate_node(e: &FdtNodeEntry, parent: Option<usize>) -> (n: DeviceNode)
    ensures
        node_from_entry(n, *e),
        n.parent == parent,
        n.children@.len() == 0,
{
    let pb = e.path.as_str().as_bytes();
    let nb = after_slash(pb);
    let nodename = string_from(nb, e.path.as_str());
    let mut np = DeviceNode {
        name: nodename.clone(),
        full_name: nodename,
        phandle: 0,
        parent,
        children: Vec::new(),
        properties: Vec::new(),
    };
    populate_properties(e, &mut np, nb);
    if let Some(name_prop) = find_in(&np.properties, "name") {
        if utf8_str(name_prop).is_some() {
            let n = trimmed_len(name_prop);
            proof {
                crate::text::lemma_trim_nul_len_bounds(name_prop@);
            }
            let t = &name_prop[0..n];
            np.name = string_from(t, np.name.as_str());
        }
    }
    if np.name.as_str().len() == 0 {
        np.name = "<NULL>".to_owned();
    }
    np
}

proof fn lemma_prefix_prop_index(props: Seq<Property>, name: Seq<char>, i: int)
    requires
        0 <= i < props.len(),
    ensures
        (prop_index(props.subrange(0, i + 1), name, 0) is Some) == ((prop_index(props.subrange(0, i), name, 0) is Some)
            || props[i].name@ == name),
{
    let a = props.subrange(0, i + 1);
    let b = props.subrange(0, i);
    lemma_prop_index_some_iff(a, name, 0);
    lemma_prop_index_some_iff(b, name, 0);
    if prop_index(a, name, 0) is Some {
        let j = choose|j: int| 0 <= j < a.len() && #[trigger] a[j].name@ == name;
        if j < i {
            assert(b[j] == a[j]);
        } else {
            assert(a[j] == props[i]);
        }
    }
    if prop_index(b, name, 0) is Some {
        let j = choose|j: int| 0 <= j < b.len() && #[trigger] b[j].name@ == name;
        assert(a[j] == b[j]);
    }
    if props[i].name@ == name {
        assert(a[i] == props[i]);
    }
}

proof fn lemma_prop_index_some_iff(props: Seq<Property>, name: Seq<char>, i: int)
    requires
        0 <= i,
    ensures
        (prop_index(props, name, i) is Some) == (exists|j: int| i <= j < props.len() && #[trigger] props[j].name@ == name),
    decreases props.len() - i,
{
    if i < props.len() {
        lemma_prop_index_some_iff(props, name, i + 1);
        if props[i].name@ == name {
        } else {
            if exists|j: int| i <= j < props.len() && #[trigger] props[j].name@ == name {
                let j = choose|j: int| i <= j < props.len() && #[trigger] props[j].name@ == name;
                assert(i + 1 <= j);
            }
        }
    }
}

/// Whether an entry is available, as [`of_fdt_device_is_available`] decides
/// for its path.
pub open spec fn entry_available(p: &FdtParser, e: FdtNodeEntry) -> bool {
    match fdt_prop(p, e.path@, "status"@) {
        None => true,
        Some(v) => status_ok(v),
    }
}

/// Whether some entry is at least [`FDT_MAX_DEPTH`] - 1 deep.
pub open spec fn too_deep(nodes: Seq<FdtNodeEntry>) -> bool {
    exists|i: int| 0 <= i < nodes.len() && #[trigger] nodes[i].depth >= FDT_MAX_DEPTH - 1
}

/// Whether entry `j` of the flattened tree is available.
pub open spec fn avail(p: &FdtParser, j: int) -> bool {
    entry_available(p, p.nodes@[j])
}

/// How many of the first `n` entries are available; the node an available
/// entry `j` becomes is node `avail_count(p, j)`.
pub open spec fn avail_count(p: &FdtParser, n: int) -> nat
    decreases n,
{
    if n <= 0 {
        0
    } else {
        avail_count(p, n - 1) + if avail(p, n - 1) { 1nat } else { 0nat }
    }
}

/// The last available entry before `n` at depth `d`.
pub open spec fn last_at_depth(p: &FdtParser, d: int, n: int) -> Option<int>
    decreases n,
{
    if n <= 0 {
        None
    } else if avail(p, n - 1) && p.nodes@[n - 1].depth == d {
        Some(n - 1)
    } else {
        last_at_depth(p, d, n - 1)
    }
}

/// The node made from the last available entry before `n` at depth `d`.
pub open spec fn node_at_depth(p: &FdtParser, d: int, n: int) -> Option<usize> {
    match last_at_depth(p, d, n) {
        None => None,
        Some(j) => Some(avail_count(p, j) as usize),
    }
}

/// The parent of the node made from entry `i`: the node of the last
/// available entry before it one level up (none at the top level).
pub open spec fn parent_node(p: &FdtParser, i: int) -> Option<usize> {
    if p.nodes@[i].depth == 0 {
        None
    } else {
        node_at_depth(p, p.nodes@[i].depth - 1, i)
    }
}

/// The children of node `m` among the nodes made from the first `n`
/// entries, in order.
pub open spec fn children_of(p: &FdtParser, m: int, n: int) -> Seq<usize>
    decreases n,
{
    if n <= 0 {
        seq![]
    } else if avail(p, n - 1) && parent_node(p, n - 1) == Some(m as usize) {
        children_of(p, m, n - 1).push(avail_count(p, n - 1) as usize)
    } else {
        children_of(p, m, n - 1)
    }
}

/// The first available top-level entry before `n`.
pub open spec fn first_top(p: &FdtParser, n: int) -> Option<int>
    decreases n,
{
    if n <= 0 {
        None
    } else {
        match first_top(p, n - 1) {
            Some(j) => Some(j),
            None => if avail(p, n - 1) && p.nodes@[n - 1].depth == 0 {
                Some(n - 1)
            } else {
                None
            },
        }
    }
}

/// The nodes made from the first `n` entries: one for each available entry,
/// in order, made from it, under its parent, with its children in order.
pub open spec fn unflattened(p: &FdtParser, nodes: Seq<DeviceNode>, n: int) -> bool {
    &&& nodes.len() == avail_count(p, n)
    &&& forall|j: int| #![trigger avail_count(p, j)] 0 <= j < n && avail(p, j) ==> {
        &&& node_from_entry(nodes[avail_count(p, j) as int], p.nodes@[j])
        &&& nodes[avail_count(p, j) as int].parent == parent_node(p, j)
    }
    &&& forall|m: int| 0 <= m < nodes.len() ==> (#[trigger] nodes[m]).children@ == children_of(p, m, n)
}

proof fn lemma_avail_count_mono(p: &FdtParser, a: int, b: int)
    requires
        a <= b,
    ensures
        avail_count(p, a) <= avail_count(p, b),
        0 <= a && a < b && avail(p, a) ==> avail_count(p, a) < avail_count(p, b),
    decreases b - a,
{
    if a < b {
        lemma_avail_count_mono(p, a, b - 1);
    }
}

proof fn lemma_avail_count_le(p: &FdtParser, n: int)
    requires
        0 <= n,
    ensures
        avail_count(p, n) <= n,
    decreases n,
{
    if n > 0 {
        lemma_avail_count_le(p, n - 1);
    }
}

proof fn lemma_last_at_depth(p: &FdtParser, d: int, n: int)
    ensures
        last_at_depth(p, d, n) matches Some(j) ==> 0 <= j < n && avail(p, j) && p.nodes@[j].depth == d,
    decreases n,
{
    if n > 0 {
        lemma_last_at_depth(p, d, n - 1);
    }
}

proof fn lemma_first_top(p: &FdtParser, n: int)
    ensures
        first_top(p, n) matches Some(j) ==> 0 <= j < n && avail(p, j) && p.nodes@[j].depth == 0,
    decreases n,
{
    if n > 0 {
        lemma_first_top(p, n - 1);
    }
}

/// A node's children are nodes made later than it.
proof fn lemma_children_after(p: &FdtParser, m: int, n: int)
    requires
        0 <= m <= usize::MAX,
        n <= p.nodes@.len() <= usize::MAX,
    ensures
        forall|c: int| 0 <= c < children_of(p, m, n).len() ==> m < #[trigger] children_of(p, m, n)[c] < avail_count(p, n),
        avail_count(p, n) <= m ==> children_of(p, m, n).len() == 0,
    decreases n,
{
    if n > 0 {
        lemma_children_after(p, m, n - 1);
        lemma_avail_count_mono(p, n - 1, n);
        if avail(p, n - 1) && parent_node(p, n - 1) == Some(m as usize) {
            let d = p.nodes@[n - 1].depth - 1;
            lemma_last_at_depth(p, d, n - 1);
            let j = last_at_depth(p, d, n - 1).unwrap();
            lemma_avail_count_mono(p, j, n - 1);
            lemma_avail_count_le(p, j);
            lemma_avail_count_le(p, n - 1);
            assert(m == avail_count(p, j));
            let prev = children_of(p, m, n - 1);
            let cur = children_of(p, m, n);
            assert(cur == prev.push(avail_count(p, n - 1) as usize));
            assert forall|c: int| 0 <= c < cur.len() implies m < #[trigger] cur[c] < avail_count(p, n) by {
                if c < prev.len() {
                    assert(cur[c] == prev[c]);
                }
            }
        } else {
            let prev = children_of(p, m, n - 1);
            assert(children_of(p, m, n) == prev);
            assert forall|c: int| 0 <= c < prev.len() implies m < #[trigger] prev[c] < avail_count(p, n) by {
            }
        }
    }
}

/// Build the nodes of the available entries (see [`unflattened`]). Fails
/// with `InvalidData` when an entry is [`FDT_MAX_DEPTH`] - 1 or more deep.
/// Returns the nodes and the first top-level one.
fn unflatten_dt_nodes(parser: &FdtParser) -> (r: Result<(Vec<DeviceNode>, Option<usize>), FdtError>)
    ensures
        too_deep(parser.nodes@) ==> r == Err::<(Vec<DeviceNode>, Option<usize>), FdtError>(FdtError::InvalidData),
        !too_deep(parser.nodes@) ==> (r matches Ok((nodes, root)) && {
            &&& unflattened(parser, nodes@, parser.nodes@.len() as int)
            &&& (OfTree { nodes }).wf()
            &&& root == match first_top(parser, parser.nodes@.len() as int) {
                None => None,
                Some(j) => Some(avail_count(parser, j) as usize),
            }
        }),
{
    let mut i: usize = 0;
    while i < parser.nodes.len()
        invariant
            i <= parser.nodes@.len(),
            forall|j: int| 0 <= j < i ==> #[trigger] parser.nodes@[j].depth < FDT_MAX_DEPTH - 1,
        decreases parser.nodes@.len() - i,
    {
        if parser.nodes[i].depth >= FDT_MAX_DEPTH - 1 {
            return Err(FdtError::InvalidData);
        }
        i = i + 1;
    }
    let mut nps: Vec<Option<usize>> = Vec::new();
    let mut d: usize = 0;
    while d < FDT_MAX_DEPTH
        invariant
            d <= FDT_MAX_DEPTH,
            nps@.len() == d,
            forall|j: int| 0 <= j < d ==> #[trigger] nps@[j] is None,
        decreases FDT_MAX_DEPTH - d,
    {
        nps.push(None);
        d = d + 1;
    }
    let mut nodes: Vec<DeviceNode> = Vec::new();
    let mut root: Option<usize> = None;
    let mut i: usize = 0;
    while i < parser.nodes.len()
        invariant
            i <= parser.nodes@.len(),
            forall|j: int| 0 <= j < parser.nodes@.len() ==> #[trigger] parser.nodes@[j].depth < FDT_MAX_DEPTH - 1,
            nps@.len() == FDT_MAX_DEPTH,
            forall|d: int| 0 <= d < FDT_MAX_DEPTH ==> #[trigger] nps@[d] == node_at_depth(parser, d, i as int),
            unflattened(parser, nodes@, i as int),
            (OfTree { nodes }).wf(),
            root == match first_top(parser, i as int) {
                None => None,
                Some(j) => Some(avail_count(parser, j) as usize),
            },
        decreases parser.nodes@.len() - i,
    {
        let e = &parser.nodes[i];
        let ghost n0 = nodes@;
        proof {
            lemma_avail_count_mono(parser, i as int, i + 1);
        }
        if of_fdt_device_is_available(parser, e.path.as_str()) {
            let depth = e.depth;
            let parent = if depth > 0 { nps[depth - 1] } else { None };
            proof {
                assert(avail(parser, i as int));
                assert(parent == parent_node(parser, i as int));
                if depth > 0 {
                    lemma_last_at_depth(parser, depth - 1, i as int);
                    if let Some(j) = last_at_depth(parser, depth - 1, i as int) {
                        lemma_avail_count_mono(parser, j, i as int);
                    }
                }
            }
            let np = populate_node(e, parent);
            let idx = nodes.len();
            nodes.push(np);
            let ghost n1 = nodes@;
            if let Some(p) = parent {
                nodes[p].add_child(idx);
            }
            proof {
                let ii = i as int;
                assert forall|j: int| #![trigger avail_count(parser, j)] 0 <= j < ii + 1 && avail(parser, j) implies {
                    &&& node_from_entry(nodes@[avail_count(parser, j) as int], parser.nodes@[j])
                    &&& nodes@[avail_count(parser, j) as int].parent == parent_node(parser, j)
                } by {
                    if j < ii {
                        lemma_avail_count_mono(parser, j, ii);
                        let k = avail_count(parser, j) as int;
                        assert(n1[k] == n0[k]);
                    }
                }
                assert forall|m: int| 0 <= m < nodes@.len() implies (#[trigger] nodes@[m]).children@
                    == children_of(parser, m, ii + 1) by {
                    if m < idx {
                        assert(n1[m] == n0[m]);
                    } else {
                        lemma_children_after(parser, m, ii);
                    }
                }
                assert forall|q: int| 0 <= q < nodes@.len() implies ((#[trigger] nodes@[q]).parent matches Some(x)
                    ==> x < q) by {
                    if q < idx {
                        assert(n1[q] == n0[q]);
                    }
                }
                lemma_first_top(parser, ii);
            }
            if root.is_none() && depth == 0 {
                root = Some(idx);
            }
            nps.set(depth, Some(idx));
            proof {
                let ii = i as int;
                assert forall|d: int| 0 <= d < FDT_MAX_DEPTH implies #[trigger] nps@[d] == node_at_depth(parser, d, ii + 1) by {
                }
            }
        } else {
            proof {
                let ii = i as int;
                assert(!avail(parser, ii));
                assert forall|j: int| #![trigger avail_count(parser, j)] 0 <= j < ii + 1 && avail(parser, j) implies {
                    &&& node_from_entry(nodes@[avail_count(parser, j) as int], parser.nodes@[j])
                    &&& nodes@[avail_count(parser, j) as int].parent == parent_node(parser, j)
                } by {
                }
                assert forall|m: int| 0 <= m < nodes@.len() implies (#[trigger] nodes@[m]).children@
                    == children_of(parser, m, ii + 1) by {
                }
                assert forall|d: int| 0 <= d < FDT_MAX_DEPTH implies #[trigger] nps@[d] == node_at_depth(parser, d, ii + 1) by {
                }
            }
        }
        i = i + 1;
    }
    Ok((nodes, root))
}

/// The tree built from a flattened tree, and its root's index.
pub struct Unflattened {
    pub tree: OfTree,
    pub root: usize,
}

/// Outcome of unflattening: `InvalidHeader` for a bad magic, `InvalidData`
/// when a node is too deep or none is available, `NotFound` when no
/// available node is at the top level; otherwise success.
pub open spec fn unflatten_error(p: &FdtParser) -> Option<FdtError> {
    if p.magic != FDT_MAGIC {
        Some(FdtError::InvalidHeader)
    } else if too_deep(p.nodes@) || avail_count(p, p.nodes@.len() as int) == 0 {
        Some(FdtError::InvalidData)
    } else if first_top(p, p.nodes@.len() as int) is None {
        Some(FdtError::NotFound)
    } else {
        None
    }
}

/// Unflatten a device tree: every available node becomes a tree node
/// (unavailable ones are left out, their descendants still visited), in
/// structure order, linked to the last available node met one level up;
/// the root is the first available top-level node. Errors as
/// [`unflatten_error`] says.
pub fn unflatten_device_tree(parser: &FdtParser) -> (r: Result<Unflattened, FdtError>)
    ensures
        r is Err <==> unflatten_error(parser) is Some,
        r matches Err(e) ==> unflatten_error(parser) == Some(e),
        r matches Ok(u) ==> {
            &&& u.tree.wf()
            &&& unflattened(parser, u.tree.nodes@, parser.nodes@.len() as int)
            &&& u.root == avail_count(parser, first_top(parser, parser.nodes@.len() as int).unwrap())
        },
{
    if parser.magic != FDT_MAGIC {
        return Err(FdtError::InvalidHeader);
    }
    let (nodes, root) = match unflatten_dt_nodes(parser) {
        Err(e) => {
            return Err(e);
        },
        Ok(x) => x,
    };
    if nodes.len() == 0 {
        return Err(FdtError::InvalidData);
    }
    proof {
        assert(parser.nodes@.len() == parser.nodes.len());
        lemma_first_top(parser, parser.nodes@.len() as int);
        if let Some(j) = first_top(parser, parser.nodes@.len() as int) {
            lemma_avail_count_le(parser, j);
            assert(root == Some(avail_count(parser, j) as usize));
        }
    }
    match root {
        None => Err(FdtError::NotFound),
        Some(r) => Ok(Unflattened { tree: OfTree { nodes }, root: r }),
    }
}

/// Unflatten the device tree passed by the firmware; see
/// [`unflatten_device_tree`].
pub fn of_fdt_unflatten_tree(parser: &FdtParser) -> (r: Result<Unflattened, FdtError>)
    ensures
        r is Err <==> unflatten_error(parser) is Some,
        r matches Err(e) ==> unflatten_error(parser) == Some(e),
        r matches Ok(u) ==> {
            &&& u.tree.wf()
            &&& unflattened(parser, u.tree.nodes@, parser.nodes@.len() as int)
            &&& u.root == avail_count(parser, first_top(parser, parser.nodes@.len() as int).unwrap())
        },
{
    unflatten_device_tree(parser)
}

} // verus!
