//! The platform bus: devices described by resource tables (memory, I/O
//! ports, interrupts), their lookup by kind, index or name, and the
//! matching of platform devices to platform drivers.
use vstd::prelude::*;
use crate::base::device::{DeviceCore, DeviceIds};
use crate::base::driver::DriverCore;
use crate::base::resource::{
    IORESOURCE_IO, IORESOURCE_IRQ, IORESOURCE_MEM, Resource, count_upto, find_nth, kind_of, lemma_count_upto_mono,
    nth_match, resource_type,
};
use crate::text::str_eq;

verus! {

/// The device has no instance id.
pub const PLATFORM_DEVID_NONE: i32 = -1;
/// The instance id is handed out when the device is added.
pub const PLATFORM_DEVID_AUTO: i32 = -2;

/// A platform device.
pub struct PlatformDevice {
    pub name: String,
    /// Instance id, or `PLATFORM_DEVID_NONE` / `PLATFORM_DEVID_AUTO`.
    pub id: i32,
    /// Whether the id was handed out automatically.
    pub id_auto: bool,
    pub resources: Vec<Resource>,
    /// How many entries of `resources` are in use.
    pub num_resources: usize,
    pub dev: DeviceCore,
    /// Handle of the platform data, if any.
    pub platform_data: Option<usize>,
    /// Name of the only driver that may bind, if set.
    pub driver_override: Option<String>,
    pub platform_dma_mask: u64,
    /// Device tree node, if any.
    pub of_node: Option<usize>,
}

/// A platform driver: which hooks it has, its driver core and its id table.
pub struct PlatformDriver {
    pub has_probe: bool,
    pub has_remove: bool,
    pub has_shutdown: bool,
    pub has_suspend: bool,
    pub has_resume: bool,
    pub driver: DriverCore,
    pub id_table: Option<Vec<PlatformDeviceId>>,
    pub prevent_deferred_probe: bool,
}

/// An entry of a driver's id table.
#[derive(Debug, Clone, Copy)]
pub struct PlatformDeviceId {
    pub name: &'static str,
    pub driver_data: usize,
}

/// What a platform device is registered from.
pub struct PlatformDeviceInfo {
    /// Id of the parent device.
    pub parent: Option<usize>,
    pub fwnode: Option<usize>,
    pub name: String,
    pub id: i32,
    pub res: Option<Vec<Resource>>,
    pub num_res: usize,
    /// Handle of the platform data (0: none).
    pub data: Option<usize>,
    pub size_data: usize,
    pub dma_mask: u64,
    pub properties: Option<usize>,
    pub of_node_reused: bool,
}

/// Platform bus errors.
#[derive(Debug, Clone, Copy, PartialEq, Eq, Structural)]
pub enum PlatformError {
    NoDevice,
    NoMemory,
    Invalid,
    Busy,
    ProbeDefer,
    Range,
    NoSpace,
    Permission,
}

/// The probe, remove and shutdown routines of platform drivers.
pub trait PlatformHooks {
    fn probe(&self, pdrv: &PlatformDriver, pdev: &mut PlatformDevice) -> Result<(), PlatformError>;

    fn remove(&self, pdrv: &PlatformDriver, pdev: &mut PlatformDevice);

    fn shutdown(&self, pdrv: &PlatformDriver, pdev: &mut PlatformDevice);
}

/// Where device ids and automatic instance ids come from.
pub struct PlatformIds {
    pub devices: DeviceIds,
    /// Next automatic instance id.
    pub next_auto: usize,
}

impl PlatformIds {
    /// Device ids from 1, automatic instance ids from 0.
    pub fn new() -> (ids: PlatformIds)
        ensures
            ids.devices.next == 1,
            ids.next_auto == 0,
    {
        PlatformIds { devices: DeviceIds::new(), next_auto: 0 }
    }
}

/// The resource table in use: the first `num_resources` entries.
pub open spec fn table(pdev: &PlatformDevice) -> Seq<Resource> {
    pdev.resources@.subrange(0, pdev.num_resources as int)
}

/// A device whose count of resources in use fits its table.
pub open spec fn pdev_wf(pdev: &PlatformDevice) -> bool {
    pdev.num_resources <= pdev.resources@.len()
}

/// Resources of kind `t`.
pub open spec fn of_kind(t: u64) -> spec_fn(Resource) -> bool {
    |x: Resource| kind_of(x) == t
}

/// The `num`-th resource of kind `t` in use, as a position.
pub open spec fn nth_of_kind(pdev: &PlatformDevice, t: u64, num: int) -> Option<int> {
    if count_upto(table(pdev), of_kind(t), pdev.num_resources as int) <= num {
        None
    } else {
        Some(choose|k: int| nth_match(table(pdev), of_kind(t), num, k))
    }
}

/// At most one position is the `n`-th match.
pub proof fn lemma_nth_match_unique(rs: Seq<Resource>, p: spec_fn(Resource) -> bool, n: int, a: int, b: int)
    requires
        nth_match(rs, p, n, a),
        nth_match(rs, p, n, b),
    ensures
        a == b,
{
    if a < b {
        lemma_count_upto_mono(rs, p, a + 1, b);
    } else if b < a {
        lemma_count_upto_mono(rs, p, b + 1, a);
    }
}

impl PlatformDevice {
    /// A device named `name` with instance id `id`: no resources, data or
    /// override, a 32-bit DMA mask, and a device core of the same name.
    pub fn new(name: String, id: i32, ids: &mut DeviceIds) -> (p: PlatformDevice)
        ensures
            p.name@ == name@,
            p.id == id,
            !p.id_auto,
            p.resources@.len() == 0,
            p.num_resources == 0,
            p.dev.name@ == name@,
            p.dev.id == old(ids).next,
            p.dev.count() == 1,
            p.dev.parent is None,
            p.platform_data is None,
            p.driver_override is None,
            p.platform_dma_mask == 0xFFFF_FFFF,
            p.of_node is None,
            final(ids).next == (if old(ids).next == usize::MAX { 0 } else { old(ids).next + 1 }),
    {
        let core_name = name.clone();
        PlatformDevice {
            name,
            id,
            id_auto: false,
            resources: Vec::new(),
            num_resources: 0,
            dev: DeviceCore::new(core_name, ids),
            platform_data: None,
            driver_override: None,
            platform_dma_mask: 0xFFFF_FFFF,
            of_node: None,
        }
    }

    /// The device's name.
    pub fn name(&self) -> (s: &str)
        ensures
            s@ == self.name@,
    {
        self.name.as_str()
    }

    /// The device's instance id.
    pub fn id(&self) -> (i: i32)
        ensures
            i == self.id,
    {
        self.id
    }
}

impl PlatformDriver {
    /// A driver named `name` without hooks or id table.
    pub fn new(name: &'static str) -> (d: PlatformDriver)
        ensures
            d.driver.name == name,
            d.driver.bus is None,
            d.driver.devices@.len() == 0,
            !d.has_probe && !d.has_remove && !d.has_shutdown && !d.has_suspend && !d.has_resume,
            d.id_table is None,
            !d.prevent_deferred_probe,
    {
        PlatformDriver {
            has_probe: false,
            has_remove: false,
            has_shutdown: false,
            has_suspend: false,
            has_resume: false,
            driver: DriverCore::new(name),
            id_table: None,
            prevent_deferred_probe: false,
        }
    }
}

/// The `num`-th resource (from 0) of kind `res_type` among those in use.
pub fn platform_get_resource(dev: &PlatformDevice, res_type: u64, num: usize) -> (r: Option<&Resource>)
    requires
        pdev_wf(dev),
    ensures
        r is Some <==> nth_of_kind(dev, res_type, num as int) is Some,
        r is Some ==> *r.unwrap() == dev.resources@[nth_of_kind(dev, res_type, num as int).unwrap()],
{
    if num >= dev.num_resources {
        proof {
            lemma_count_upto_mono(table(dev), of_kind(res_type), 0, dev.num_resources as int);
        }
        return None;
    }
    let found = find_nth(dev.resources.as_slice(), dev.num_resources, res_type, true, num);
    proof {
        assert(dev.resources@.subrange(0, dev.num_resources as int) == table(dev));
        assert(of_kind(res_type) == |x: Resource| kind_of(x) == res_type);
    }
    match found {
        None => None,
        Some(k) => {
            proof {
                let c = choose|c: int| nth_match(table(dev), of_kind(res_type), num as int, c);
                lemma_nth_match_unique(table(dev), of_kind(res_type), num as int, k as int, c);
                assert(table(dev)[k as int] == dev.resources@[k as int]);
            }
            Some(&dev.resources[k])
        },
    }
}

/// `b` is `a` with resource `k` replaced by `x`.
pub open spec fn with_resource(a: PlatformDevice, b: PlatformDevice, k: int, x: Resource) -> bool {
    &&& b.resources@ == a.resources@.update(k, x)
    &&& b.name == a.name && b.id == a.id && b.id_auto == a.id_auto
    &&& b.num_resources == a.num_resources && b.dev == a.dev
    &&& b.platform_data == a.platform_data && b.driver_override == a.driver_override
    &&& b.platform_dma_mask == a.platform_dma_mask && b.of_node == a.of_node
}

/// The `num`-th resource (from 0) of kind `res_type` among those in use,
/// lent for changing; whatever is written through it lands in that entry
/// and nowhere else.
pub fn platform_get_resource_mut<'a>(dev: &'a mut PlatformDevice, res_type: u64, num: usize) -> (r: Option<&'a mut Resource>)
    requires
        pdev_wf(old(dev)),
    ensures
        r is Some <==> nth_of_kind(old(dev), res_type, num as int) is Some,
        r is None ==> *final(dev) == *old(dev),
        r matches Some(x) ==> ({
            let k = nth_of_kind(old(dev), res_type, num as int).unwrap();
            &&& *x == old(dev).resources@[k]
            &&& with_resource(*old(dev), *final(dev), k, *final(x))
        }),
{
    let found = find_nth(dev.resources.as_slice(), dev.num_resources, res_type, true, num);
    proof {
        assert(dev.resources@.subrange(0, dev.num_resources as int) == table(dev));
        assert(of_kind(res_type) == |x: Resource| kind_of(x) == res_type);
    }
    match found {
        None => None,
        Some(k) => {
            proof {
                let c = choose|c: int| nth_match(table(dev), of_kind(res_type), num as int, c);
                lemma_nth_match_unique(table(dev), of_kind(res_type), num as int, k as int, c);
            }
            Some(&mut dev.resources[k])
        },
    }
}

/// The `num`-th resource (from 0) in use that is memory or I/O ports.
pub fn platform_get_mem_or_io(dev: &PlatformDevice, num: usize) -> (r: Option<&Resource>)
    requires
        pdev_wf(dev),
    ensures
        ({
            let p = |x: Resource| x.flags & (IORESOURCE_MEM | IORESOURCE_IO) != 0;
            &&& r is None <==> count_upto(table(dev), p, dev.num_resources as int) <= num
            &&& r is Some ==> exists|k: int| nth_match(table(dev), p, num as int, k) && *r.unwrap() == table(dev)[k]
        }),
{
    let found = find_nth(dev.resources.as_slice(), dev.num_resources, IORESOURCE_MEM | IORESOURCE_IO, false, num);
    match found {
        None => None,
        Some(k) => Some(&dev.resources[k]),
    }
}

/// Whether resource `x` is of kind `t` and named `name`.
pub open spec fn named(x: Resource, t: u64, name: Seq<char>) -> bool {
    kind_of(x) == t && x.name is Some && x.name.unwrap()@ == name
}

/// The first resource in use of kind `res_type` named `name`.
pub fn platform_get_resource_byname<'a>(dev: &'a PlatformDevice, res_type: u64, name: &str) -> (r: Option<&'a Resource>)
    requires
        pdev_wf(dev),
    ensures
        r is None <==> forall|k: int| 0 <= k < dev.num_resources ==> !named(#[trigger] dev.resources@[k], res_type, name@),
        r is Some ==> exists|k: int| 0 <= k < dev.num_resources && *r.unwrap() == dev.resources@[k]
            && named(dev.resources@[k], res_type, name@)
            && forall|j: int| 0 <= j < k ==> !named(#[trigger] dev.resources@[j], res_type, name@),
{
    let mut i: usize = 0;
    while i < dev.num_resources
        invariant
            pdev_wf(dev),
            i <= dev.num_resources,
            forall|j: int| 0 <= j < i ==> !named(#[trigger] dev.resources@[j], res_type, name@),
        decreases dev.num_resources - i,
    {
        let r = &dev.resources[i];
        if let Some(res_name) = r.name {
            if resource_type(r) == res_type && str_eq(res_name, name) {
                return Some(r);
            }
        }
        i = i + 1;
    }
    None
}

/// What `platform_get_irq_optional` gives for index `num`: the start of the
/// `num`-th interrupt resource, `NoDevice` when there is none, `Invalid`
/// when it starts at 0.
pub open spec fn irq_spec(dev: &PlatformDevice, num: int) -> Result<u32, PlatformError> {
    match nth_of_kind(dev, IORESOURCE_IRQ, num) {
        None => Err(PlatformError::NoDevice),
        Some(k) => if dev.resources@[k].start == 0 {
            Err(PlatformError::Invalid)
        } else {
            Ok(dev.resources@[k].start as u32)
        },
    }
}

/// The `num`-th interrupt of the device (see `irq_spec`).
pub fn platform_get_irq_optional(dev: &PlatformDevice, num: usize) -> (r: Result<u32, PlatformError>)
    requires
        pdev_wf(dev),
    ensures
        r == irq_spec(dev, num as int),
{
    let r = match platform_get_resource(dev, IORESOURCE_IRQ, num) {
        None => return Err(PlatformError::NoDevice),
        Some(r) => r,
    };
    if r.start == 0 {
        return Err(PlatformError::Invalid);
    }
    Ok(r.start as u32)
}

/// The `num`-th interrupt of the device (see `irq_spec`).
pub fn platform_get_irq(dev: &PlatformDevice, num: usize) -> (r: Result<u32, PlatformError>)
    requires
        pdev_wf(dev),
    ensures
        r == irq_spec(dev, num as int),
{
    platform_get_irq_optional(dev, num)
}

/// Number of interrupts the device has: the first index at which the
/// lookup fails.
pub fn platform_irq_count(dev: &PlatformDevice) -> (r: Result<usize, PlatformError>)
    requires
        pdev_wf(dev),
    ensures
        r matches Ok(n) && (forall|j: int| 0 <= j < n ==> #[trigger] irq_spec(dev, j) is Ok) && irq_spec(dev, n as int) is Err,
{
    let mut nr: usize = 0;
    loop
        invariant
            pdev_wf(dev),
            nr <= dev.num_resources,
            forall|j: int| 0 <= j < nr ==> #[trigger] irq_spec(dev, j) is Ok,
        ensures
            forall|j: int| 0 <= j < nr ==> #[trigger] irq_spec(dev, j) is Ok,
            irq_spec(dev, nr as int) is Err,
        decreases dev.num_resources - nr,
    {
        let got = platform_get_irq_optional(dev, nr);
        match got {
            Ok(_) => {
                proof {
                    lemma_count_upto_mono(table(dev), of_kind(IORESOURCE_IRQ), 0, dev.num_resources as int);
                }
                nr = nr + 1;
            },
            Err(PlatformError::ProbeDefer) => return Err(PlatformError::ProbeDefer),
            Err(_) => break,
        }
    }
    Ok(nr)
}

/// The interrupt named `name`: the start of the first interrupt resource
/// with that name; `NoDevice` when there is none, `Invalid` when it starts
/// at 0.
pub open spec fn irq_byname_spec(dev: &PlatformDevice, name: Seq<char>, r: Result<u32, PlatformError>) -> bool {
    &&& (forall|k: int| 0 <= k < dev.num_resources ==> !named(#[trigger] dev.resources@[k], IORESOURCE_IRQ, name))
        ==> r == Err::<u32, PlatformError>(PlatformError::NoDevice)
    &&& (exists|k: int| 0 <= k < dev.num_resources && named(dev.resources@[k], IORESOURCE_IRQ, name)) ==> exists|k: int|
        0 <= k < dev.num_resources && named(dev.resources@[k], IORESOURCE_IRQ, name)
        && (forall|j: int| 0 <= j < k ==> !named(#[trigger] dev.resources@[j], IORESOURCE_IRQ, name))
        && r == (if dev.resources@[k].start == 0 { Err(PlatformError::Invalid) } else { Ok(dev.resources@[k].start as u32) })
}

fn get_irq_byname(dev: &PlatformDevice, name: &str) -> (r: Result<u32, PlatformError>)
    requires
        pdev_wf(dev),
    ensures
        irq_byname_spec(dev, name@, r),
{
    let r = match platform_get_resource_byname(dev, IORESOURCE_IRQ, name) {
        None => return Err(PlatformError::NoDevice),
        Some(r) => r,
    };
    if r.start == 0 {
        return Err(PlatformError::Invalid);
    }
    Ok(r.start as u32)
}

/// The interrupt named `name` (see `irq_byname_spec`).
pub fn platform_get_irq_byname(dev: &PlatformDevice, name: &str) -> (r: Result<u32, PlatformError>)
    requires
        pdev_wf(dev),
    ensures
        irq_byname_spec(dev, name@, r),
{
    get_irq_byname(dev, name)
}

/// The interrupt named `name` (see `irq_byname_spec`).
pub fn platform_get_irq_byname_optional(dev: &PlatformDevice, name: &str) -> (r: Result<u32, PlatformError>)
    requires
        pdev_wf(dev),
    ensures
        irq_byname_spec(dev, name@, r),
{
    get_irq_byname(dev, name)
}


/// `a` and `b` are the same device apart from its resources, data, id and
/// DMA mask.
pub open spec fn same_identity(a: &PlatformDevice, b: &PlatformDevice) -> bool {
    a.name == b.name && a.dev == b.dev && a.driver_override == b.driver_override && a.of_node == b.of_node
}

/// A new boxed device (see `PlatformDevice::new`); always succeeds.
pub fn platform_device_alloc(name: String, id: i32, ids: &mut PlatformIds) -> (r: Option<Box<PlatformDevice>>)
    ensures
        r is Some,
        ({
            let p = *r.unwrap();
            &&& p.name@ == name@ && p.id == id && !p.id_auto
            &&& p.resources@.len() == 0 && p.num_resources == 0
            &&& p.dev.name@ == name@ && p.dev.id == old(ids).devices.next && p.dev.count() == 1 && p.dev.parent is None
            &&& p.platform_data is None && p.driver_override is None && p.of_node is None
            &&& p.platform_dma_mask == 0xFFFF_FFFF
        }),
        final(ids).next_auto == old(ids).next_auto,
        final(ids).devices.next == (if old(ids).devices.next == usize::MAX { 0 } else { old(ids).devices.next + 1 }),
{
    let mut pdev = PlatformDevice::new(name, id, &mut ids.devices);
    pdev.platform_dma_mask = 0xFFFF_FFFF;
    Some(Box::new(pdev))
}

/// Gives up a device that was never added.
pub fn platform_device_put(pdev: Box<PlatformDevice>) {
}

/// Replaces the device's resources with a copy of `res`.
pub fn platform_device_add_resources(pdev: &mut PlatformDevice, res: &[Resource]) -> (r: Result<(), PlatformError>)
    ensures
        r is Ok,
        final(pdev).resources@ == res@,
        final(pdev).num_resources == res@.len(),
        pdev_wf(final(pdev)),
        same_identity(old(pdev), final(pdev)),
        final(pdev).id == old(pdev).id && final(pdev).id_auto == old(pdev).id_auto,
        final(pdev).platform_data == old(pdev).platform_data,
        final(pdev).platform_dma_mask == old(pdev).platform_dma_mask,
{
    pdev.resources.clear();
    let mut i: usize = 0;
    while i < res.len()
        invariant
            i <= res@.len(),
            pdev.resources@ == res@.subrange(0, i as int),
            same_identity(old(pdev), pdev),
            pdev.id == old(pdev).id && pdev.id_auto == old(pdev).id_auto,
            pdev.platform_data == old(pdev).platform_data,
            pdev.platform_dma_mask == old(pdev).platform_dma_mask,
        decreases res.len() - i,
    {
        pdev.resources.push(res[i]);
        i = i + 1;
        assert(pdev.resources@ =~= res@.subrange(0, i as int));
    }
    assert(res@.subrange(0, res@.len() as int) =~= res@);
    pdev.num_resources = pdev.resources.len();
    Ok(())
}

/// Attaches platform data: handle `data` (0 stands for none) of `size`
/// bytes. A missing handle or a size of 0 clears the data.
pub fn platform_device_add_data(pdev: &mut PlatformDevice, data: usize, size: usize) -> (r: Result<(), PlatformError>)
    ensures
        r is Ok,
        final(pdev).platform_data == (if data == 0 || size == 0 { None } else { Some(data) }),
        same_identity(old(pdev), final(pdev)),
        final(pdev).resources@ == old(pdev).resources@ && final(pdev).num_resources == old(pdev).num_resources,
        final(pdev).id == old(pdev).id && final(pdev).id_auto == old(pdev).id_auto,
        final(pdev).platform_dma_mask == old(pdev).platform_dma_mask,
{
    if data == 0 || size == 0 {
        pdev.platform_data = None;
        return Ok(());
    }
    pdev.platform_data = Some(data);
    Ok(())
}

/// The id that adding gives a device whose id is `id`: the next automatic
/// id for `PLATFORM_DEVID_AUTO`, `id` itself otherwise.
pub open spec fn added_id(id: i32, next_auto: usize) -> i32 {
    if id == PLATFORM_DEVID_AUTO { next_auto as i32 } else { id }
}

/// Adds a device to the platform bus; an automatic id is handed out here.
pub fn platform_device_add(pdev: &mut PlatformDevice, ids: &mut PlatformIds) -> (r: Result<(), PlatformError>)
    ensures
        r is Ok,
        final(pdev).id == added_id(old(pdev).id, old(ids).next_auto),
        final(pdev).id_auto == (old(pdev).id == PLATFORM_DEVID_AUTO || old(pdev).id_auto),
        final(ids).devices == old(ids).devices,
        final(ids).next_auto == (if old(pdev).id == PLATFORM_DEVID_AUTO {
            if old(ids).next_auto == usize::MAX { 0 } else { old(ids).next_auto + 1 }
        } else {
            old(ids).next_auto as int
        }),
        same_identity(old(pdev), final(pdev)),
        final(pdev).resources@ == old(pdev).resources@ && final(pdev).num_resources == old(pdev).num_resources,
        final(pdev).platform_data == old(pdev).platform_data,
        final(pdev).platform_dma_mask == old(pdev).platform_dma_mask,
{
    if pdev.id == PLATFORM_DEVID_AUTO {
        let id = ids.next_auto;
        ids.next_auto = ids.next_auto.wrapping_add(1);
        pdev.id = id as i32;
        pdev.id_auto = true;
    }
    Ok(())
}

/// Removes a device from the platform bus; an automatic id is given back
/// (the id returns to `PLATFORM_DEVID_AUTO`).
pub fn platform_device_del(pdev: &mut PlatformDevice)
    ensures
        final(pdev).id == (if old(pdev).id_auto { PLATFORM_DEVID_AUTO } else { old(pdev).id }),
        final(pdev).id_auto == old(pdev).id_auto,
        same_identity(old(pdev), final(pdev)),
        final(pdev).resources@ == old(pdev).resources@ && final(pdev).num_resources == old(pdev).num_resources,
        final(pdev).platform_data == old(pdev).platform_data,
        final(pdev).platform_dma_mask == old(pdev).platform_dma_mask,
{
    if pdev.id_auto {
        pdev.id = PLATFORM_DEVID_AUTO;
    }
}

/// Sets a 32-bit DMA mask and adds the device.
pub fn platform_device_register(pdev: &mut PlatformDevice, ids: &mut PlatformIds) -> (r: Result<(), PlatformError>)
    ensures
        r is Ok,
        final(pdev).platform_dma_mask == 0xFFFF_FFFF,
        final(pdev).id == added_id(old(pdev).id, old(ids).next_auto),
        final(pdev).id_auto == (old(pdev).id == PLATFORM_DEVID_AUTO || old(pdev).id_auto),
        final(ids).devices == old(ids).devices,
        final(ids).next_auto == (if old(pdev).id == PLATFORM_DEVID_AUTO {
            if old(ids).next_auto == usize::MAX { 0 } else { old(ids).next_auto + 1 }
        } else {
            old(ids).next_auto as int
        }),
        same_identity(old(pdev), final(pdev)),
        final(pdev).resources@ == old(pdev).resources@ && final(pdev).num_resources == old(pdev).num_resources,
        final(pdev).platform_data == old(pdev).platform_data,
{
    pdev.platform_dma_mask = 0xFFFF_FFFF;
    platform_device_add(pdev, ids)
}

/// Removes the device from the platform bus (see `platform_device_del`).
pub fn platform_device_unregister(pdev: &mut PlatformDevice)
    ensures
        final(pdev).id == (if old(pdev).id_auto { PLATFORM_DEVID_AUTO } else { old(pdev).id }),
        final(pdev).id_auto == old(pdev).id_auto,
        same_identity(old(pdev), final(pdev)),
        final(pdev).resources@ == old(pdev).resources@ && final(pdev).num_resources == old(pdev).num_resources,
        final(pdev).platform_data == old(pdev).platform_data,
        final(pdev).platform_dma_mask == old(pdev).platform_dma_mask,
{
    platform_device_del(pdev);
}

/// Creates and adds a device from `info`: its name and id, the parent link,
/// the firmware node, a DMA mask (`info`'s when not 0, else 32 bits), a
/// copy of its resources and its platform data.
pub fn platform_device_register_full(info: &PlatformDeviceInfo, ids: &mut PlatformIds) -> (r: Result<Box<PlatformDevice>, PlatformError>)
    ensures
        r is Ok,
        ({
            let p = *r.unwrap();
            &&& p.name@ == info.name@
            &&& p.id == added_id(info.id, old(ids).next_auto)
            &&& p.id_auto == (info.id == PLATFORM_DEVID_AUTO)
            &&& p.dev.parent == info.parent
            &&& p.dev.id == old(ids).devices.next
            &&& p.of_node == info.fwnode
            &&& p.platform_dma_mask == (if info.dma_mask != 0 { info.dma_mask } else { 0xFFFF_FFFF })
            &&& p.resources@ == (match info.res { Some(v) => v@, None => Seq::<Resource>::empty() })
            &&& p.num_resources == p.resources@.len()
            &&& p.platform_data == (match info.data {
                Some(d) => if d == 0 || info.size_data == 0 { None } else { Some(d) },
                None => None,
            })
        }),
{
    let boxed = match platform_device_alloc(info.name.clone(), info.id, ids) {
        None => return Err(PlatformError::NoMemory),
        Some(b) => b,
    };
    let mut pdev: PlatformDevice = *boxed;
    if let Some(parent) = info.parent {
        pdev.dev.set_parent(parent);
    }
    pdev.of_node = info.fwnode;
    if info.dma_mask != 0 {
        pdev.platform_dma_mask = info.dma_mask;
    }
    match &info.res {
        Some(res) => {
            platform_device_add_resources(&mut pdev, res.as_slice())?;
        },
        None => {},
    }
    if let Some(data) = info.data {
        platform_device_add_data(&mut pdev, data, info.size_data)?;
    }
    platform_device_add(&mut pdev, ids)?;
    Ok(Box::new(pdev))
}

/// Registers each device in turn (registration does not fail).
pub fn platform_add_devices(devs: &mut Vec<PlatformDevice>, ids: &mut PlatformIds) -> (r: Result<(), PlatformError>)
    ensures
        r is Ok,
        final(devs)@.len() == old(devs)@.len(),
        forall|i: int| 0 <= i < old(devs)@.len() ==> {
            let (a, b) = (#[trigger] old(devs)@[i], final(devs)@[i]);
            &&& b.platform_dma_mask == 0xFFFF_FFFF
            &&& b.id_auto == (a.id == PLATFORM_DEVID_AUTO || a.id_auto)
            &&& a.id != PLATFORM_DEVID_AUTO ==> b.id == a.id
            &&& same_identity(&a, &b)
            &&& b.resources@ == a.resources@ && b.num_resources == a.num_resources
            &&& b.platform_data == a.platform_data
        },
{
    let mut i: usize = 0;
    while i < devs.len()
        invariant
            i <= devs@.len(),
            devs@.len() == old(devs)@.len(),
            forall|j: int| i <= j < old(devs)@.len() ==> #[trigger] devs@[j] == old(devs)@[j],
            forall|j: int| 0 <= j < i ==> {
                let (a, b) = (#[trigger] old(devs)@[j], devs@[j]);
                &&& b.platform_dma_mask == 0xFFFF_FFFF
                &&& b.id_auto == (a.id == PLATFORM_DEVID_AUTO || a.id_auto)
                &&& a.id != PLATFORM_DEVID_AUTO ==> b.id == a.id
                &&& same_identity(&a, &b)
                &&& b.resources@ == a.resources@ && b.num_resources == a.num_resources
                &&& b.platform_data == a.platform_data
            },
        decreases devs.len() - i,
    {
        let _ = platform_device_register(&mut devs[i], ids);
        i = i + 1;
    }
    Ok(())
}

/// Registers a platform driver (always succeeds).
pub fn platform_driver_register(drv: &mut PlatformDriver) -> (r: Result<(), PlatformError>)
    ensures
        r is Ok,
        *final(drv) == *old(drv),
{
    Ok(())
}

/// Unregisters a platform driver (nothing to undo).
pub fn platform_driver_unregister(drv: &mut PlatformDriver)
    ensures
        *final(drv) == *old(drv),
{
}

/// The first entry of `id_table` whose name is the device's name.
fn platform_match_id<'a>(id_table: &'a Vec<PlatformDeviceId>, pdev: &PlatformDevice) -> (r: Option<&'a PlatformDeviceId>)
    ensures
        r is None <==> forall|i: int| 0 <= i < id_table@.len() ==> (#[trigger] id_table@[i]).name@ != pdev.name@,
        r is Some ==> r.unwrap().name@ == pdev.name@,
{
    let mut i: usize = 0;
    while i < id_table.len()
        invariant
            i <= id_table@.len(),
            forall|j: int| 0 <= j < i ==> (#[trigger] id_table@[j]).name@ != pdev.name@,
        decreases id_table.len() - i,
    {
        if str_eq(id_table[i].name, pdev.name.as_str()) {
            return Some(&id_table[i]);
        }
        i = i + 1;
    }
    None
}

/// Whether `pdrv` may drive `pdev`: a driver override decides alone (the
/// driver's name must equal it); otherwise an id table entry with the
/// device's name, or the driver's name equal to the device's, matches.
pub open spec fn platform_match_spec(pdev: &PlatformDevice, pdrv: &PlatformDriver) -> bool {
    match pdev.driver_override {
        Some(o) => o@ == pdrv.driver.name@,
        None => (pdrv.id_table matches Some(t) && exists|i: int| 0 <= i < t@.len() && (#[trigger] t@[i]).name@ == pdev.name@)
            || pdev.name@ == pdrv.driver.name@,
    }
}

/// Whether `pdrv` may drive `pdev` (see `platform_match_spec`).
pub fn platform_match(pdev: &PlatformDevice, pdrv: &PlatformDriver) -> (b: bool)
    ensures
        b == platform_match_spec(pdev, pdrv),
{
    if let Some(override_name) = &pdev.driver_override {
        return str_eq(override_name.as_str(), pdrv.driver.name);
    }
    if let Some(id_table) = &pdrv.id_table {
        let found = platform_match_id(id_table, pdev);
        if found.is_some() {
            return true;
        }
    }
    str_eq(pdev.name.as_str(), pdrv.driver.name)
}

/// Runs the driver's probe on the device, if it has one.
fn platform_probe<H: PlatformHooks>(pdev: &mut PlatformDevice, pdrv: &PlatformDriver, hooks: &H) -> (r: Result<(), PlatformError>)
    ensures
        !pdrv.has_probe ==> r is Ok && *final(pdev) == *old(pdev),
{
    if pdrv.has_probe {
        hooks.probe(pdrv, pdev)?;
    }
    Ok(())
}

/// Runs the driver's remove routine on the device, if it has one.
fn platform_remove<H: PlatformHooks>(pdev: &mut PlatformDevice, pdrv: &PlatformDriver, hooks: &H)
    ensures
        !pdrv.has_remove ==> *final(pdev) == *old(pdev),
{
    if pdrv.has_remove {
        hooks.remove(pdrv, pdev);
    }
}

/// Runs the driver's shutdown routine on the device, if it has one.
fn platform_shutdown<H: PlatformHooks>(pdev: &mut PlatformDevice, pdrv: &PlatformDriver, hooks: &H)
    ensures
        !pdrv.has_shutdown ==> *final(pdev) == *old(pdev),
{
    if pdrv.has_shutdown {
        hooks.shutdown(pdrv, pdev);
    }
}

/// Registers a driver for devices that are already present: deferred
/// probing is turned off and the driver is given its probe routine.
pub fn platform_driver_probe(drv: &mut PlatformDriver) -> (r: Result<(), PlatformError>)
    ensures
        r is Ok,
        final(drv).prevent_deferred_probe,
        final(drv).has_probe,
        final(drv).driver == old(drv).driver,
        final(drv).id_table == old(drv).id_table,
        final(drv).has_remove == old(drv).has_remove,
{
    drv.prevent_deferred_probe = true;
    drv.has_probe = true;
    platform_driver_register(drv)?;
    Ok(())
}

/// Creates a device named after `driver` (no instance id) with the given
/// resources and data, adds it, and registers the driver for it.
pub fn platform_create_bundle(
    driver: &mut PlatformDriver,
    res: Option<Vec<Resource>>,
    data: Option<usize>,
    size: usize,
    ids: &mut PlatformIds,
) -> (r: Result<Box<PlatformDevice>, PlatformError>)
    ensures
        r is Ok,
        ({
            let p = *r.unwrap();
            &&& p.name@ == old(driver).driver.name@
            &&& p.id == PLATFORM_DEVID_NONE
            &&& p.resources@ == (match res { Some(v) => v@, None => Seq::<Resource>::empty() })
            &&& p.num_resources == p.resources@.len()
            &&& p.platform_data == (match data {
                Some(d) => if d == 0 || size == 0 { None } else { Some(d) },
                None => None,
            })
        }),
        final(driver).prevent_deferred_probe,
        final(driver).has_probe,
        final(driver).driver == old(driver).driver,
{
    let name = driver.driver.name.to_owned();
    let boxed = match platform_device_alloc(name, PLATFORM_DEVID_NONE, ids) {
        None => return Err(PlatformError::NoMemory),
        Some(b) => b,
    };
    let mut pdev: PlatformDevice = *boxed;
    if let Some(resources) = res {
        platform_device_add_resources(&mut pdev, resources.as_slice())?;
    }
    if let Some(d) = data {
        platform_device_add_data(&mut pdev, d, size)?;
    }
    platform_device_add(&mut pdev, ids)?;
    platform_driver_probe(driver)?;
    Ok(Box::new(pdev))
}

/// Registers each driver in turn (registration does not fail).
pub fn platform_register_drivers(drivers: &mut Vec<PlatformDriver>) -> (r: Result<(), PlatformError>)
    ensures
        r is Ok,
        final(drivers)@ == old(drivers)@,
{
    let mut i: usize = 0;
    while i < drivers.len()
        invariant
            i <= drivers@.len(),
            drivers@ == old(drivers)@,
        decreases drivers.len() - i,
    {
        let _ = platform_driver_register(&mut drivers[i]);
        proof { assert(drivers@ =~= old(drivers)@); }
        i = i + 1;
    }
    Ok(())
}

/// Unregisters the drivers, last first.
pub fn platform_unregister_drivers(drivers: &mut Vec<PlatformDriver>)
    ensures
        final(drivers)@ == old(drivers)@,
{
    let mut i: usize = drivers.len();
    while i > 0
        invariant
            i <= drivers@.len(),
            drivers@ == old(drivers)@,
        decreases i,
    {
        i = i - 1;
        platform_driver_unregister(&mut drivers[i]);
        proof { assert(drivers@ =~= old(drivers)@); }
    }
}

/// Looks for a platform device bound to `drv`; devices are not tracked by
/// driver here, so none is found.
pub fn platform_find_device_by_driver<'a>(start: Option<&'a PlatformDevice>, drv: &PlatformDriver) -> (r: Option<&'a PlatformDevice>)
    ensures
        r is None,
{
    None
}

} // verus!
