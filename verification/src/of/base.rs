//! Device tree nodes and properties: lookup, names, availability,
//! compatibility and scalar reads.
//!
//! A tree is an arena ([`OfTree`]): nodes refer to their parent and
//! children by index, a parent always before its children.
use vstd::prelude::*;
use crate::of::cells::{be32, be64, read_be32, read_be64};
use crate::text::{bytes_eq, lemma_str_bytes_eq, strlist_find, strlist_index, trim_nul, trimmed_len, utf8_str};
use vstd::string::StringSliceAdditionalSpecFns;
use vstd::utf8::{encode_utf8, valid_utf8};
use vstd::wrapping::{i32_specs, u32_specs};

verus! {

/// Errors of the flattened-tree layer, shared by the property readers.
#[derive(Debug, Clone, Copy, PartialEq, Eq, Structural)]
pub enum FdtError {
    /// Invalid FDT header.
    InvalidHeader,
    /// Node not found.
    NotFound,
    /// Invalid data.
    InvalidData,
    /// Invalid value.
    InvalidValue,
    /// Memory allocation failed.
    NoMemory,
    /// Maximum depth exceeded.
    MaxDepthExceeded,
    /// Invalid property.
    InvalidProperty,
}

/// A named property value.
#[derive(Clone)]
pub struct Property {
    pub name: String,
    pub value: Vec<u8>,
}

/// A device tree node.
pub struct DeviceNode {
    pub name: String,
    pub full_name: String,
    pub phandle: u32,
    /// Index of the parent node in its tree.
    pub parent: Option<usize>,
    /// Indices of the child nodes in its tree, in source order.
    pub children: Vec<usize>,
    pub properties: Vec<Property>,
}

/// The UTF-8 bytes of a string view.
pub open spec fn sbytes(s: Seq<char>) -> Seq<u8> {
    encode_utf8(s)
}

/// Position of the first property of `props` (from `i` on) named `name`.
pub open spec fn prop_index(props: Seq<Property>, name: Seq<char>, i: int) -> Option<int>
    decreases props.len() - i,
{
    if i < 0 || i >= props.len() {
        None
    } else if props[i].name@ == name {
        Some(i)
    } else {
        prop_index(props, name, i + 1)
    }
}

pub proof fn lemma_prop_index_bounds(props: Seq<Property>, name: Seq<char>, i: int)
    requires
        0 <= i,
    ensures
        prop_index(props, name, i) matches Some(k) ==> i <= k < props.len() && props[k].name@ == name,
    decreases props.len() - i,
{
    if i < props.len() {
        lemma_prop_index_bounds(props, name, i + 1);
    }
}

/// The value of the first property of the node named `name`.
pub open spec fn prop_value(np: Option<&DeviceNode>, name: Seq<char>) -> Option<Seq<u8>> {
    match np {
        None => None,
        Some(n) => match prop_index(n.properties@, name, 0) {
            None => None,
            Some(k) => Some(n.properties@[k].value@),
        },
    }
}

impl DeviceNode {
    /// A node named `name` with no properties and no relatives.
    pub fn new(name: &str) -> (r: Self)
        ensures
            r.name@ == name@,
            r.full_name@ == name@,
            r.phandle == 0,
            r.parent is None,
            r.children@.len() == 0,
            r.properties@.len() == 0,
    {
        DeviceNode {
            name: name.to_owned(),
            full_name: name.to_owned(),
            phandle: 0,
            parent: None,
            children: Vec::new(),
            properties: Vec::new(),
        }
    }

    /// Append a property.
    pub fn add_property(&mut self, prop: Property)
        ensures
            final(self).properties@ == old(self).properties@.push(prop),
            final(self).name == old(self).name && final(self).full_name == old(self).full_name,
            final(self).phandle == old(self).phandle && final(self).parent == old(self).parent,
            final(self).children@ == old(self).children@,
    {
        self.properties.push(prop);
    }

    /// Append a child (by its index in the tree).
    pub fn add_child(&mut self, child: usize)
        ensures
            final(self).children@ == old(self).children@.push(child),
            final(self).name == old(self).name && final(self).full_name == old(self).full_name,
            final(self).phandle == old(self).phandle && final(self).parent == old(self).parent,
            final(self).properties@ == old(self).properties@,
    {
        self.children.push(child);
    }

    /// The first property named `name`.
    pub fn get_property(&self, name: &str) -> (r: Option<&Property>)
        ensures
            prop_index(self.properties@, name@, 0) is None ==> r is None,
            prop_index(self.properties@, name@, 0) matches Some(k) ==> r == Some(&self.properties@[k]),
    {
        let mut i: usize = 0;
        while i < self.properties.len()
            invariant
                i <= self.properties@.len(),
                prop_index(self.properties@, name@, i as int) == prop_index(self.properties@, name@, 0),
            decreases self.properties@.len() - i,
        {
            let p = &self.properties[i];
            if crate::text::str_eq(p.name.as_str(), name) {
                return Some(p);
            }
            i = i + 1;
        }
        None
    }

    /// Whether the node has a property named `name`.
    pub fn read_bool(&self, name: &str) -> (r: bool)
        ensures
            r == (prop_index(self.properties@, name@, 0) is Some),
    {
        self.get_property(name).is_some()
    }

    /// Read a `u32` property (its first cell).
    pub fn read_u32(&self, name: &str) -> (r: Result<u32, FdtError>)
        ensures
            r == read_u32_spec(prop_value(Some(self), name@)),
    {
        of_property_read_u32(Some(self), name)
    }

    /// Read a property as an array of `u32` cells; `InvalidValue` when it
    /// is empty or not a whole number of cells.
    pub fn read_u32_array(&self, name: &str) -> (r: Result<Vec<u32>, FdtError>)
        ensures
            prop_value(Some(self), name@) is None ==> r == Err::<Vec<u32>, FdtError>(FdtError::NotFound),
            prop_value(Some(self), name@) matches Some(v) && (v.len() == 0 || v.len() % 4 != 0) ==> r == Err::<
                Vec<u32>,
                FdtError,
            >(FdtError::InvalidValue),
            prop_value(Some(self), name@) is Some && prop_value(Some(self), name@).unwrap().len() > 0 && prop_value(
                Some(self),
                name@,
            ).unwrap().len() % 4 == 0 ==> (r matches Ok(a) && a@ == cells_of(prop_value(Some(self), name@).unwrap())),
    {
        let v = match self.get_property(name) {
            None => {
                return Err(FdtError::NotFound);
            },
            Some(p) => p.value.as_slice(),
        };
        proof {
            lemma_prop_index_bounds(self.properties@, name@, 0);
        }
        if v.len() == 0 || v.len() % 4 != 0 {
            return Err(FdtError::InvalidValue);
        }
        let mut out: Vec<u32> = Vec::new();
        let mut i: usize = 0;
        while i < v.len() / 4
            invariant
                i <= v@.len() / 4,
                out@ == cells_of(v@).subrange(0, i as int),
            decreases v@.len() / 4 - i,
        {
            out.push(read_be32(v, i * 4));
            i = i + 1;
            assert(out@ =~= cells_of(v@).subrange(0, i as int));
        }
        assert(out@ =~= cells_of(v@));
        Ok(out)
    }
}

/// The whole big-endian cells of `v`.
pub open spec fn cells_of(v: Seq<u8>) -> Seq<u32> {
    Seq::new((v.len() / 4) as nat, |i: int| be32(v, 4 * i))
}

/// Index of the last byte `c` in `v[..end]`.
pub open spec fn last_index_of(v: Seq<u8>, c: u8, end: int) -> Option<int>
    decreases end,
{
    if end <= 0 || end > v.len() {
        None
    } else if v[end - 1] == c {
        Some(end - 1)
    } else {
        last_index_of(v, c, end - 1)
    }
}

/// Index of the first byte `c` in `v` from `i` on.
pub open spec fn first_index_of(v: Seq<u8>, c: u8, i: int) -> Option<int>
    decreases v.len() - i,
{
    if i < 0 || i >= v.len() {
        None
    } else if v[i] == c {
        Some(i)
    } else {
        first_index_of(v, c, i + 1)
    }
}

pub proof fn lemma_last_index_bounds(v: Seq<u8>, c: u8, end: int)
    ensures
        last_index_of(v, c, end) matches Some(k) ==> 0 <= k < end && k < v.len() && v[k] == c,
    decreases end,
{
    if 0 < end <= v.len() && v[end - 1] != c {
        lemma_last_index_bounds(v, c, end - 1);
    }
}

pub proof fn lemma_first_index_bounds(v: Seq<u8>, c: u8, i: int)
    requires
        0 <= i,
    ensures
        first_index_of(v, c, i) matches Some(k) ==> i <= k < v.len() && v[k] == c,
        first_index_of(v, c, i) is None ==> forall|k: int| i <= k < v.len() ==> v[k] != c,
    decreases v.len() - i,
{
    if i < v.len() && v[i] != c {
        lemma_first_index_bounds(v, c, i + 1);
    }
}

/// Finds the last byte `c` of `v`.
pub fn rfind_byte(v: &[u8], c: u8) -> (r: Option<usize>)
    ensures
        r matches Some(k) ==> last_index_of(v@, c, v@.len() as int) == Some(k as int),
        r is None ==> last_index_of(v@, c, v@.len() as int) is None,
{
    let mut end = v.len();
    while end > 0
        invariant
            end <= v@.len(),
            last_index_of(v@, c, end as int) == last_index_of(v@, c, v@.len() as int),
        decreases end,
    {
        if v[end - 1] == c {
            return Some(end - 1);
        }
        end = end - 1;
    }
    None
}

/// Finds the first byte `c` of `v`.
pub fn find_byte(v: &[u8], c: u8) -> (r: Option<usize>)
    ensures
        r matches Some(k) ==> first_index_of(v@, c, 0) == Some(k as int),
        r is None ==> first_index_of(v@, c, 0) is None,
{
    let mut i: usize = 0;
    while i < v.len()
        invariant
            i <= v@.len(),
            first_index_of(v@, c, i as int) == first_index_of(v@, c, 0),
        decreases v@.len() - i,
    {
        if v[i] == c {
            return Some(i);
        }
        i = i + 1;
    }
    None
}

/// The last `/`-separated component of a path.
pub open spec fn last_component(p: Seq<u8>) -> Seq<u8> {
    match last_index_of(p, 0x2Fu8, p.len() as int) {
        None => p,
        Some(k) => p.subrange(k + 1, p.len() as int),
    }
}

/// A node name without its unit address: the part before the first `@`.
pub open spec fn before_first_at(n: Seq<u8>) -> Seq<u8> {
    match first_index_of(n, 0x40u8, 0) {
        None => n,
        Some(k) => n.subrange(0, k),
    }
}

/// The bytes of the last path component of `p`.
pub fn last_component_of(p: &[u8]) -> (r: &[u8])
    ensures
        r@ == last_component(p@),
{
    proof {
        lemma_last_index_bounds(p@, 0x2Fu8, p@.len() as int);
    }
    let _n = p.len();
    match rfind_byte(p, 0x2F) {
        None => p,
        Some(k) => &p[k + 1..p.len()],
    }
}

/// Whether the node's name (last path component, unit address removed)
/// is `name`; false without a node.
pub fn of_node_name_eq(np: Option<&DeviceNode>, name: &str) -> (r: bool)
    ensures
        np is None ==> !r,
        np matches Some(n) ==> r == (before_first_at(last_component(sbytes(n.full_name@))) == name.spec_bytes()),
{
    let n = match np {
        None => {
            return false;
        },
        Some(n) => n,
    };
    let full = n.full_name.as_str().as_bytes();
    let comp = last_component_of(full);
    proof {
        lemma_first_index_bounds(comp@, 0x40u8, 0);
    }
    let base = match find_byte(comp, 0x40) {
        None => comp,
        Some(k) => &comp[0..k],
    };
    bytes_eq(base, name.as_bytes())
}

/// Whether the node's last path component starts with `prefix`; false
/// without a node.
pub fn of_node_name_prefix(np: Option<&DeviceNode>, prefix: &str) -> (r: bool)
    ensures
        np is None ==> !r,
        np matches Some(n) ==> r == {
            let c = last_component(sbytes(n.full_name@));
            prefix.spec_bytes().len() <= c.len() && c.subrange(0, prefix.spec_bytes().len() as int)
                == prefix.spec_bytes()
        },
{
    let n = match np {
        None => {
            return false;
        },
        Some(n) => n,
    };
    let full = n.full_name.as_str().as_bytes();
    let comp = last_component_of(full);
    let pb = prefix.as_bytes();
    if pb.len() > comp.len() {
        return false;
    }
    bytes_eq(&comp[0..pb.len()], pb)
}

/// The first property of the node named `name`.
pub fn of_find_property<'a>(np: Option<&'a DeviceNode>, name: &str) -> (r: Option<&'a Property>)
    ensures
        np is None ==> r is None,
        np matches Some(n) ==> (prop_index(n.properties@, name@, 0) is None ==> r is None) && (prop_index(
            n.properties@,
            name@,
            0,
        ) matches Some(k) ==> r == Some(&n.properties@[k])),
{
    match np {
        None => None,
        Some(n) => n.get_property(name),
    }
}

/// The value of the first property of the node named `name`.
pub fn of_get_property<'a>(np: Option<&'a DeviceNode>, name: &str) -> (r: Option<&'a [u8]>)
    ensures
        prop_value(np, name@) is None ==> r is None,
        prop_value(np, name@) matches Some(v) ==> (r matches Some(s) && s@ == v),
{
    match of_find_property(np, name) {
        None => None,
        Some(p) => Some(p.value.as_slice()),
    }
}

/// Whether a `status` value means available: `okay` or `ok`, trailing NULs ignored.
pub open spec fn status_ok(v: Seq<u8>) -> bool {
    trim_nul(v) == seq![0x6Fu8, 0x6Bu8, 0x61u8, 0x79u8] || trim_nul(v) == seq![0x6Fu8, 0x6Bu8]
}

/// Whether a status value reads `okay` or `ok`.
pub fn status_is_ok(v: &[u8]) -> (r: bool)
    ensures
        r == status_ok(v@),
{
    let n = trimmed_len(v);
    proof {
        crate::text::lemma_trim_nul_len_bounds(v@);
    }
    let t = &v[0..n];
    assert(t@ == trim_nul(v@));
    let okay: [u8; 4] = [0x6F, 0x6B, 0x61, 0x79];
    let ok: [u8; 2] = [0x6F, 0x6B];
    assert(okay@ =~= seq![0x6Fu8, 0x6Bu8, 0x61u8, 0x79u8]);
    assert(ok@ =~= seq![0x6Fu8, 0x6Bu8]);
    bytes_eq(t, &okay) || bytes_eq(t, &ok)
}

/// Whether the node is available: no `status` property, or `okay`/`ok`.
pub open spec fn available(np: Option<&DeviceNode>) -> bool {
    np is Some && match prop_value(np, "status"@) {
        None => true,
        Some(v) => status_ok(v),
    }
}

/// Whether the node is available (false without a node).
pub fn of_device_is_available(device: Option<&DeviceNode>) -> (r: bool)
    ensures
        r == available(device),
{
    if device.is_none() {
        return false;
    }
    match of_get_property(device, "status") {
        None => true,
        Some(status) => status_is_ok(status),
    }
}

/// The match score of a compatible entry at list position `i`: earlier is
/// better (the arithmetic wraps past 2^29 entries).
pub open spec fn compat_score(i: usize) -> i32 {
    i32_specs::wrapping_sub(0x3FFF_FFFF, u32_specs::wrapping_mul(i as u32, 4) as i32)
}

/// How well the node matches `compat`: a positive score when `compat` is
/// in its `compatible` list (earlier entries score higher), 0 otherwise.
pub fn of_device_is_compatible(device: Option<&DeviceNode>, compat: &str) -> (r: i32)
    ensures
        prop_value(device, "compatible"@) is None ==> r == 0,
        prop_value(device, "compatible"@) matches Some(v) ==> match strlist_find(v, compat.spec_bytes(), 0, 0) {
            None => r == 0,
            Some(i) => r == compat_score(i as usize),
        },
{
    let v = match of_get_property(device, "compatible") {
        None => {
            return 0;
        },
        Some(v) => v,
    };
    match strlist_index(v, compat.as_bytes()) {
        None => 0,
        Some(i) => {
            let m: u32 = (i as u32).wrapping_mul(4);
            0x3FFF_FFFFi32.wrapping_sub(m as i32)
        },
    }
}

/// What [`of_property_read_u32`] gives for a property value.
pub open spec fn read_u32_spec(v: Option<Seq<u8>>) -> Result<u32, FdtError> {
    match v {
        None => Err(FdtError::NotFound),
        Some(b) => if b.len() < 4 {
            Err(FdtError::InvalidValue)
        } else {
            Ok(be32(b, 0))
        },
    }
}

/// Read the first cell of a property; `NotFound` without it,
/// `InvalidValue` when shorter than a cell.
pub fn of_property_read_u32(np: Option<&DeviceNode>, propname: &str) -> (r: Result<u32, FdtError>)
    ensures
        r == read_u32_spec(prop_value(np, propname@)),
{
    let v = match of_get_property(np, propname) {
        None => {
            return Err(FdtError::NotFound);
        },
        Some(v) => v,
    };
    if v.len() < 4 {
        return Err(FdtError::InvalidValue);
    }
    Ok(read_be32(v, 0))
}

/// Read the first 64-bit value of a property; `Err` without it or when
/// shorter than 8 bytes.
pub fn of_property_read_u64(np: Option<&DeviceNode>, propname: &str) -> (r: Result<u64, ()>)
    ensures
        prop_value(np, propname@) is None ==> r is Err,
        prop_value(np, propname@) matches Some(v) ==> if v.len() < 8 {
            r is Err
        } else {
            r == Ok::<u64, ()>(be64(v, 0))
        },
{
    let v = match of_get_property(np, propname) {
        None => {
            return Err(());
        },
        Some(v) => v,
    };
    if v.len() < 8 {
        return Err(());
    }
    Ok(read_be64(v, 0))
}

/// Read a string property without its trailing NULs; `Err` without it or
/// when it is not valid UTF-8.
pub fn of_property_read_string<'a>(np: Option<&'a DeviceNode>, propname: &str) -> (r: Result<&'a str, ()>)
    ensures
        prop_value(np, propname@) is None ==> r is Err,
        prop_value(np, propname@) matches Some(v) ==> (r is Ok <==> valid_utf8(v)) && (r matches Ok(s) ==> s.spec_bytes()
            == trim_nul(v)),
{
    let v = match of_get_property(np, propname) {
        None => {
            return Err(());
        },
        Some(v) => v,
    };
    if utf8_str(v).is_none() {
        return Err(());
    }
    let n = trimmed_len(v);
    proof {
        crate::text::lemma_trim_nul_len_bounds(v@);
        crate::text::lemma_valid_utf8_trim_nul(v@);
    }
    match utf8_str(&v[0..n]) {
        Some(s) => Ok(s),
        None => Err(()),
    }
}

/// A device tree: nodes by index, each parent before its children.
pub struct OfTree {
    pub nodes: Vec<DeviceNode>,
}

impl OfTree {
    /// Parents come before their children.
    pub open spec fn wf(&self) -> bool {
        forall|i: int| 0 <= i < self.nodes@.len() ==> ((#[trigger] self.nodes@[i]).parent matches Some(p) ==> p < i)
    }
}

/// The first node from `i` on whose full path is `path`.
pub open spec fn path_index(nodes: Seq<DeviceNode>, path: Seq<char>, i: int) -> Option<int>
    decreases nodes.len() - i,
{
    if i < 0 || i >= nodes.len() {
        None
    } else if nodes[i].full_name@ == path {
        Some(i)
    } else {
        path_index(nodes, path, i + 1)
    }
}

/// Find a node by its full path.
pub fn of_find_node_by_path(tree: &OfTree, path: &str) -> (r: Option<usize>)
    ensures
        r matches Some(k) ==> path_index(tree.nodes@, path@, 0) == Some(k as int),
        r is None ==> path_index(tree.nodes@, path@, 0) is None,
{
    let mut i: usize = 0;
    while i < tree.nodes.len()
        invariant
            i <= tree.nodes@.len(),
            path_index(tree.nodes@, path@, i as int) == path_index(tree.nodes@, path@, 0),
        decreases tree.nodes@.len() - i,
    {
        if crate::text::str_eq(tree.nodes[i].full_name.as_str(), path) {
            return Some(i);
        }
        i = i + 1;
    }
    None
}

/// The first node after `from` (from the start when `None`) whose name,
/// as [`of_node_name_eq`] reads it, is `name`.
pub open spec fn name_index(nodes: Seq<DeviceNode>, name: Seq<u8>, i: int) -> Option<int>
    decreases nodes.len() - i,
{
    if i < 0 || i >= nodes.len() {
        None
    } else if before_first_at(last_component(sbytes(nodes[i].full_name@))) == name {
        Some(i)
    } else {
        name_index(nodes, name, i + 1)
    }
}

/// The index a search after `from` starts at.
pub open spec fn search_start(from: Option<usize>) -> int {
    match from {
        None => 0,
        Some(f) => f + 1,
    }
}

/// Find the next node named `name` after `from`.
pub fn of_find_node_by_name(tree: &OfTree, from: Option<usize>, name: &str) -> (r: Option<usize>)
    ensures
        r matches Some(k) ==> name_index(tree.nodes@, name.spec_bytes(), search_start(from)) == Some(k as int),
        r is None ==> name_index(tree.nodes@, name.spec_bytes(), search_start(from)) is None,
{
    let mut i: usize = match from {
        None => 0,
        Some(f) => if f < tree.nodes.len() {
            f + 1
        } else {
            return None;
        },
    };
    while i < tree.nodes.len()
        invariant
            search_start(from) <= i <= tree.nodes@.len() || (search_start(from) >= tree.nodes@.len()),
            i <= tree.nodes@.len(),
            name_index(tree.nodes@, name.spec_bytes(), i as int) == name_index(
                tree.nodes@,
                name.spec_bytes(),
                search_start(from),
            ),
        decreases tree.nodes@.len() - i,
    {
        if of_node_name_eq(Some(&tree.nodes[i]), name) {
            return Some(i);
        }
        i = i + 1;
    }
    None
}

/// Whether a node matches a type (its `device_type` property, NUL-trimmed)
/// and a compatible string.
pub open spec fn compat_node(n: &DeviceNode, type_: Option<&str>, compat: Seq<u8>) -> bool {
    &&& match type_ {
        None => true,
        Some(t) => prop_value(Some(n), "device_type"@) matches Some(v) && trim_nul(v) == t.spec_bytes(),
    }
    &&& prop_value(Some(n), "compatible"@) matches Some(v) && strlist_find(v, compat, 0, 0) is Some
}

/// The first node from `i` on matching [`compat_node`].
pub open spec fn compat_index(nodes: Seq<DeviceNode>, type_: Option<&str>, compat: Seq<u8>, i: int) -> Option<int>
    decreases nodes.len() - i,
{
    if i < 0 || i >= nodes.len() {
        None
    } else if compat_node(&nodes[i], type_, compat) {
        Some(i)
    } else {
        compat_index(nodes, type_, compat, i + 1)
    }
}

fn node_matches(n: &DeviceNode, type_: Option<&str>, compatible: &str) -> (r: bool)
    ensures
        r == compat_node(n, type_, compatible.spec_bytes()),
{
    if let Some(t) = type_ {
        match of_get_property(Some(n), "device_type") {
            None => {
                return false;
            },
            Some(v) => {
                let k = trimmed_len(v);
                proof {
                    crate::text::lemma_trim_nul_len_bounds(v@);
                }
                if !bytes_eq(&v[0..k], t.as_bytes()) {
                    return false;
                }
            },
        }
    }
    match of_get_property(Some(n), "compatible") {
        None => false,
        Some(v) => strlist_index(v, compatible.as_bytes()).is_some(),
    }
}

/// Find the next node after `from` that is compatible with `compatible`
/// and, when `type_` is given, has that `device_type`.
pub fn of_find_compatible_node(tree: &OfTree, from: Option<usize>, type_: Option<&str>, compatible: &str) -> (r: Option<
    usize,
>)
    ensures
        r matches Some(k) ==> compat_index(tree.nodes@, type_, compatible.spec_bytes(), search_start(from)) == Some(
            k as int,
        ),
        r is None ==> compat_index(tree.nodes@, type_, compatible.spec_bytes(), search_start(from)) is None,
{
    let mut i: usize = match from {
        None => 0,
        Some(f) => if f < tree.nodes.len() {
            f + 1
        } else {
            return None;
        },
    };
    while i < tree.nodes.len()
        invariant
            i <= tree.nodes@.len(),
            compat_index(tree.nodes@, type_, compatible.spec_bytes(), i as int) == compat_index(
                tree.nodes@,
                type_,
                compatible.spec_bytes(),
                search_start(from),
            ),
        decreases tree.nodes@.len() - i,
    {
        if node_matches(&tree.nodes[i], type_, compatible) {
            return Some(i);
        }
        i = i + 1;
    }
    None
}

} // verus!
