//! I2C devices from the device tree: board info from a node's
//! `compatible`, `reg` and flag properties, client creation, and matching
//! client names against compatible tables.
use vstd::prelude::*;
use vstd::string::StrSliceExecFns;
use vstd::utf8::decode_utf8;
use crate::i2c::i2c_core::{
    Error, I2C_CLIENT_HOST_NOTIFY, I2C_CLIENT_SLAVE, I2C_CLIENT_TEN, I2C_CLIENT_WAKE, I2cAdapter, I2cClient, I2cRegistry,
    client_addr_ok, client_addrs,
};
use crate::of::base::{DeviceNode, of_property_read_string, of_property_read_u32, prop_value, read_u32_spec};
use crate::of::property::of_property_read_bool;
use crate::text::{str_eq, trim_nul};

verus! {

broadcast use {vstd::utf8::encode_utf8_decode_utf8};

/// `reg` flag: the address is 10 bits wide.
pub const I2C_TEN_BIT_ADDRESS: u32 = 0x8000_0000;
/// `reg` flag: the address is the adapter's own, as a slave.
pub const I2C_OWN_SLAVE_ADDRESS: u32 = 0x4000_0000;

/// What a client is made from: its type, address and flags.
pub struct I2cBoardInfo {
    pub device_type: String,
    pub addr: u16,
    pub flags: u16,
}

impl I2cBoardInfo {
    /// Empty type, address 0, no flags.
    pub fn new() -> (b: I2cBoardInfo)
        ensures
            b.device_type@.len() == 0 && b.addr == 0 && b.flags == 0,
    {
        I2cBoardInfo { device_type: String::new(), addr: 0, flags: 0 }
    }
}

/// Position of the first comma in `s`.
pub open spec fn first_comma(s: Seq<char>, i: int) -> Option<int>
    decreases s.len() - i,
{
    if i < 0 || i >= s.len() {
        None
    } else if s[i] == ',' {
        Some(i)
    } else {
        first_comma(s, i + 1)
    }
}

/// `s` without a vendor prefix: what follows its first comma, or all of it.
pub open spec fn after_vendor(s: Seq<char>) -> Seq<char> {
    match first_comma(s, 0) {
        Some(k) => s.subrange(k + 1, s.len() as int),
        None => s,
    }
}

proof fn lemma_first_comma(s: Seq<char>, i: int)
    requires
        0 <= i,
    ensures
        first_comma(s, i) matches Some(k) ==> i <= k < s.len(),
    decreases s.len() - i,
{
    if 0 <= i < s.len() && s[i] != ',' {
        lemma_first_comma(s, i + 1);
    }
}

/// `s` without its vendor prefix.
fn strip_vendor(s: &str) -> (r: &str)
    ensures
        r@ == after_vendor(s@),
{
    let n = s.unicode_len();
    let mut i: usize = 0;
    while i < n
        invariant
            n == s@.len(),
            i <= n,
            first_comma(s@, 0) == first_comma(s@, i as int),
        decreases n - i,
    {
        if s.get_char(i) == ',' {
            return s.substring_char(i + 1, n);
        }
        i = i + 1;
    }
    s
}

/// The address and flags that a `reg` value `a` gives: the 10-bit and
/// own-slave bits become client flags and are cleared from the address.
pub open spec fn reg_flags(a: u32) -> u16 {
    (if a & I2C_TEN_BIT_ADDRESS != 0 { I2C_CLIENT_TEN } else { 0u16 })
        | (if a & I2C_OWN_SLAVE_ADDRESS != 0 { I2C_CLIENT_SLAVE } else { 0u16 })
}

/// `reg` value `a` without its flag bits.
pub open spec fn reg_addr(a: u32) -> u32 {
    a & !(I2C_TEN_BIT_ADDRESS | I2C_OWN_SLAVE_ADDRESS)
}

/// Whether `reg` value `a` gives an address in range for its width.
pub open spec fn reg_addr_ok(a: u32) -> bool {
    if a & I2C_TEN_BIT_ADDRESS != 0 { reg_addr(a) <= 0x3ff } else { reg_addr(a) <= 0x7f }
}

/// The compatible string of `node` as read: its bytes without trailing NULs.
pub open spec fn compat_chars(node: &DeviceNode) -> Seq<char> {
    decode_utf8(trim_nul(prop_value(Some(node), "compatible"@).unwrap()))
}

/// Whether `node` has a readable `compatible` string.
pub open spec fn has_compat(node: &DeviceNode) -> bool {
    prop_value(Some(node), "compatible"@) matches Some(v) && vstd::utf8::valid_utf8(v)
}

/// Board info of an I2C device node: its type is its compatible string
/// without vendor prefix, its address and width/slave flags come from
/// `reg` (see `reg_addr`, `reg_flags`), and `host-notify` and
/// `wakeup-source` add their flags. `InvalidArgument` without a readable
/// compatible string, without a `reg` cell, or for an address out of range.
pub fn of_i2c_get_board_info(node: &DeviceNode) -> (r: Result<I2cBoardInfo, Error>)
    ensures
        !has_compat(node) ==> r == Err::<I2cBoardInfo, Error>(Error::InvalidArgument),
        has_compat(node) && read_u32_spec(prop_value(Some(node), "reg"@)) is Err
            ==> r == Err::<I2cBoardInfo, Error>(Error::InvalidArgument),
        has_compat(node) && read_u32_spec(prop_value(Some(node), "reg"@)) is Ok
            && !reg_addr_ok(read_u32_spec(prop_value(Some(node), "reg"@)).unwrap())
            ==> r == Err::<I2cBoardInfo, Error>(Error::InvalidArgument),
        r is Ok <==> has_compat(node) && read_u32_spec(prop_value(Some(node), "reg"@)) is Ok
            && reg_addr_ok(read_u32_spec(prop_value(Some(node), "reg"@)).unwrap()),
        r matches Ok(info) ==> ({
            let a = read_u32_spec(prop_value(Some(node), "reg"@)).unwrap();
            &&& info.device_type@ == after_vendor(compat_chars(node))
            &&& info.addr == reg_addr(a)
            &&& info.flags == (reg_flags(a)
                | (if prop_value(Some(node), "host-notify"@) is Some { I2C_CLIENT_HOST_NOTIFY } else { 0u16 })
                | (if prop_value(Some(node), "wakeup-source"@) is Some { I2C_CLIENT_WAKE } else { 0u16 }))
        }),
{
    let mut info = I2cBoardInfo::new();
    match of_property_read_string(Some(node), "compatible") {
        Ok(compatible) => {
            let dt = strip_vendor(compatible);
            info.device_type = dt.to_owned();
        },
        Err(_) => {
            return Err(Error::InvalidArgument);
        },
    }
    let reg = match of_property_read_u32(Some(node), "reg") {
        Ok(a) => a,
        Err(_) => return Err(Error::InvalidArgument),
    };
    let ten = reg & I2C_TEN_BIT_ADDRESS != 0;
    let a1 = if ten { reg & !I2C_TEN_BIT_ADDRESS } else { reg };
    let slave = a1 & I2C_OWN_SLAVE_ADDRESS != 0;
    let addr = if slave { a1 & !I2C_OWN_SLAVE_ADDRESS } else { a1 };
    assert(addr == reg_addr(reg) && slave == (reg & I2C_OWN_SLAVE_ADDRESS != 0)) by (bit_vector)
        requires
            ten == (reg & 0x8000_0000u32 != 0),
            a1 == (if ten { reg & !0x8000_0000u32 } else { reg }),
            slave == (a1 & 0x4000_0000u32 != 0),
            addr == (if slave { a1 & !0x4000_0000u32 } else { a1 }),
    ;
    let flags: u16 = (if ten { I2C_CLIENT_TEN } else { 0u16 }) | (if slave { I2C_CLIENT_SLAVE } else { 0u16 });
    if ten {
        if addr > 0x3ff {
            return Err(Error::InvalidArgument);
        }
    } else if addr > 0x7f {
        return Err(Error::InvalidArgument);
    }
    info.addr = addr as u16;
    info.flags = flags;
    let host: u16 = if of_property_read_bool(Some(node), "host-notify") { I2C_CLIENT_HOST_NOTIFY } else { 0u16 };
    info.flags = info.flags | host;
    let wake: u16 = if of_property_read_bool(Some(node), "wakeup-source") { I2C_CLIENT_WAKE } else { 0u16 };
    info.flags = info.flags | wake;
    Ok(info)
}


/// Creates the client that `node` describes on `adapter` (see
/// `of_i2c_get_board_info` and `I2cClient::new`).
pub fn of_i2c_register_device(adapter: &mut I2cAdapter, node: &DeviceNode) -> (r: Result<I2cClient, Error>)
    ensures
        r is Err ==> final(adapter).clients@ == old(adapter).clients@,
        r matches Ok(c) ==> c.adapter == old(adapter).id && final(adapter).clients@.drop_last() == old(adapter).clients@
            && final(adapter).clients@.len() == old(adapter).clients@.len() + 1
            && final(adapter).clients@.last().addr == c.addr
            && client_addr_ok(c.addr, c.flags) && !client_addrs(old(adapter).clients@).contains(c.addr)
            && c.name@ == after_vendor(compat_chars(node))
            && c.addr == reg_addr(read_u32_spec(prop_value(Some(node), "reg"@)).unwrap()),
        final(adapter).id == old(adapter).id,
        (!has_compat(node) || read_u32_spec(prop_value(Some(node), "reg"@)) is Err) ==> r == Err::<I2cClient, Error>(Error::InvalidArgument),
{
    let info = of_i2c_get_board_info(node)?;
    I2cClient::new(info.device_type.clone(), info.addr, info.flags, adapter)
}

/// Creates a client on `adapter` for each node of `child_nodes` in order,
/// passing over nodes that fail; the clients made come back in order.
pub fn of_i2c_register_devices(adapter: &mut I2cAdapter, adapter_node: &DeviceNode, child_nodes: &[DeviceNode]) -> (r: Result<Vec<I2cClient>, Error>)
    ensures
        r is Ok,
        r matches Ok(cs) ==> cs@.len() <= child_nodes@.len()
            && forall|i: int| 0 <= i < cs@.len() ==> final(adapter).clients@[old(adapter).clients@.len() + i].addr
                == (#[trigger] cs@[i]).addr
            && final(adapter).clients@.len() == old(adapter).clients@.len() + cs@.len()
            && final(adapter).clients@.subrange(0, old(adapter).clients@.len() as int) == old(adapter).clients@
            && forall|i: int| 0 <= i < cs@.len() ==> (#[trigger] cs@[i]).adapter == old(adapter).id,
        final(adapter).id == old(adapter).id,
{
    let mut clients: Vec<I2cClient> = Vec::new();
    let mut i: usize = 0;
    while i < child_nodes.len()
        invariant
            i <= child_nodes@.len(),
            clients@.len() <= i,
            adapter.id == old(adapter).id,
            adapter.clients@.len() == old(adapter).clients@.len() + clients@.len(),
            adapter.clients@.subrange(0, old(adapter).clients@.len() as int) == old(adapter).clients@,
            forall|k: int| 0 <= k < clients@.len() ==> (#[trigger] clients@[k]).adapter == old(adapter).id,
            forall|k: int| 0 <= k < clients@.len() ==> adapter.clients@[old(adapter).clients@.len() + k].addr
                == (#[trigger] clients@[k]).addr,
        decreases child_nodes.len() - i,
    {
        let ghost before = adapter.clients@;
        match of_i2c_register_device(adapter, &child_nodes[i]) {
            Ok(client) => {
                proof {
                    assert(adapter.clients@.subrange(0, old(adapter).clients@.len() as int)
                        =~= before.subrange(0, old(adapter).clients@.len() as int));
                    assert forall|k: int| 0 <= k < clients@.len() implies adapter.clients@[old(adapter).clients@.len() + k].addr
                        == (#[trigger] clients@[k]).addr by {
                        assert(adapter.clients@.drop_last()[old(adapter).clients@.len() + k] == before[old(adapter).clients@.len() + k]);
                    }
                }
                clients.push(client);
            },
            Err(_) => {},
        }
        i = i + 1;
    }
    Ok(clients)
}

/// A compatible-table entry.
pub struct I2cOfMatch {
    pub compatible: String,
    pub data: usize,
}

impl I2cOfMatch {
    /// An entry for `compatible` with no data.
    pub fn new(compatible: &str) -> (m: I2cOfMatch)
        ensures
            m.compatible@ == compatible@ && m.data == 0,
    {
        I2cOfMatch { compatible: compatible.to_owned(), data: 0 }
    }

    /// An entry for `compatible` carrying `data`.
    pub fn with_data(compatible: &str, data: usize) -> (m: I2cOfMatch)
        ensures
            m.compatible@ == compatible@ && m.data == data,
    {
        I2cOfMatch { compatible: compatible.to_owned(), data }
    }
}

/// Whether client name `name` matches entry `m`: equal to its compatible
/// string, or to it without vendor prefix.
pub open spec fn name_matches(m: I2cOfMatch, name: Seq<char>) -> bool {
    name == m.compatible@ || name == after_vendor(m.compatible@)
}

/// Position of the first entry before the first empty one that `name`
/// matches.
pub open spec fn sysfs_match(t: Seq<I2cOfMatch>, name: Seq<char>, i: int) -> Option<int>
    decreases t.len() - i,
{
    if i < 0 || i >= t.len() || t[i].compatible@.len() == 0 {
        None
    } else if name_matches(t[i], name) {
        Some(i)
    } else {
        sysfs_match(t, name, i + 1)
    }
}

proof fn lemma_sysfs_match(t: Seq<I2cOfMatch>, name: Seq<char>, i: int)
    requires
        0 <= i,
    ensures
        sysfs_match(t, name, i) matches Some(k) ==> i <= k < t.len(),
    decreases t.len() - i,
{
    if 0 <= i < t.len() && t[i].compatible@.len() != 0 && !name_matches(t[i], name) {
        lemma_sysfs_match(t, name, i + 1);
    }
}

/// Match by name for clients without a device node (see `sysfs_match`).
pub fn i2c_of_match_device_sysfs<'a>(matches: &'a [I2cOfMatch], client_name: &str) -> (r: Option<&'a I2cOfMatch>)
    ensures
        sysfs_match(matches@, client_name@, 0) is None ==> r is None,
        sysfs_match(matches@, client_name@, 0) matches Some(k) ==> r == Some(&matches@[k]),
{
    proof { lemma_sysfs_match(matches@, client_name@, 0); }
    let mut i: usize = 0;
    while i < matches.len()
        invariant
            i <= matches@.len(),
            sysfs_match(matches@, client_name@, 0) == sysfs_match(matches@, client_name@, i as int),
        decreases matches.len() - i,
    {
        let m = &matches[i];
        if m.compatible.as_str().unicode_len() == 0 {
            return None;
        }
        if str_eq(client_name, m.compatible.as_str()) {
            return Some(m);
        }
        let name = strip_vendor(m.compatible.as_str());
        if str_eq(client_name, name) {
            return Some(m);
        }
        i = i + 1;
    }
    None
}

/// The table entry that client name `client_name` matches (see
/// `sysfs_match`); none for an empty table.
pub fn i2c_of_match_device<'a>(matches: &'a [I2cOfMatch], client_name: &str) -> (r: Option<&'a I2cOfMatch>)
    ensures
        sysfs_match(matches@, client_name@, 0) is None ==> r is None,
        sysfs_match(matches@, client_name@, 0) matches Some(k) ==> r == Some(&matches@[k]),
{
    if matches.len() == 0 {
        return None;
    }
    i2c_of_match_device_sysfs(matches, client_name)
}

/// The 7-bit address in `node`'s `reg`, if it has one.
pub fn of_find_i2c_device_by_node(node: &DeviceNode) -> (r: Option<u16>)
    ensures
        read_u32_spec(prop_value(Some(node), "reg"@)) is Err ==> r is None,
        read_u32_spec(prop_value(Some(node), "reg"@)) matches Ok(a) ==> r == Some((a & 0x7f) as u16),
{
    match of_property_read_u32(Some(node), "reg") {
        Ok(addr) => Some((addr & 0x7f) as u16),
        Err(_) => None,
    }
}

/// The last registered adapter named `node_name`.
pub fn of_find_i2c_adapter_by_node<'a>(reg: &'a I2cRegistry, node_name: &str) -> (r: Option<&'a I2cAdapter>)
    ensures
        r is None <==> forall|k: int| 0 <= k < reg.adapters@.len() ==> (#[trigger] reg.adapters@[k]).name@ != node_name@,
        r is Some ==> exists|k: int| 0 <= k < reg.adapters@.len() && r == Some(&reg.adapters@[k])
            && reg.adapters@[k].name@ == node_name@
            && forall|j: int| k < j < reg.adapters@.len() ==> (#[trigger] reg.adapters@[j]).name@ != node_name@,
{
    let mut found: Option<usize> = None;
    let mut i: usize = 0;
    while i < reg.adapters.len()
        invariant
            i <= reg.adapters@.len(),
            found is None <==> forall|k: int| 0 <= k < i ==> (#[trigger] reg.adapters@[k]).name@ != node_name@,
            found matches Some(k) ==> k < i && reg.adapters@[k as int].name@ == node_name@
                && forall|j: int| k < j < i ==> (#[trigger] reg.adapters@[j]).name@ != node_name@,
        decreases reg.adapters.len() - i,
    {
        if str_eq(reg.adapters[i].name.as_str(), node_name) {
            found = Some(i);
        }
        i = i + 1;
    }
    match found {
        None => None,
        Some(k) => Some(&reg.adapters[k]),
    }
}

} // verus!
