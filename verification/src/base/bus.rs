//! Buses: a registry of buses, each with its devices and drivers, and the
//! binding of a device to the first driver that matches and probes it.
//! Devices and drivers live in the registry and are named by position.
use vstd::prelude::*;
use crate::text::str_eq;

verus! {

/// A bus: its name and which of its hooks it has.
#[derive(Clone, Copy, Debug)]
pub struct BusType {
    pub name: &'static str,
    /// The bus decides matches itself; without this every driver matches.
    pub has_match: bool,
    pub has_probe: bool,
    pub has_remove: bool,
}

/// A device on a bus.
pub struct Device {
    pub name: String,
    pub bus: Option<BusType>,
    /// Position of the bound driver in the registry.
    pub driver: Option<usize>,
    pub priv_data: Option<usize>,
    pub dma_mask: u64,
    pub coherent_dma_mask: u64,
}

/// A driver for devices of a bus.
pub struct DeviceDriver {
    pub name: &'static str,
    pub bus: Option<BusType>,
    pub has_probe: bool,
    pub has_remove: bool,
    /// Positions of the devices bound to it, in binding order.
    pub devices: Vec<usize>,
}

/// Bus errors.
#[derive(Debug, Clone, Copy, PartialEq, Eq, Structural)]
pub enum BusError {
    InvalidBus,
    InvalidDevice,
    InvalidDriver,
    NoMatch,
    Busy,
    NoMemory,
}

/// The routines that buses and drivers supply: the bus's match rule, the
/// driver's probe and remove.
pub trait BusCallbacks {
    /// Whether `drv` can drive `dev` (asked only of buses with a match rule).
    fn bus_match(&self, bus: &BusType, dev: &Device, drv: &DeviceDriver) -> bool;

    /// Brings `dev` up under `drv` (called only for drivers with a probe).
    fn driver_probe(&self, drv: &DeviceDriver, dev: &Device) -> Result<(), BusError>;

    /// Takes `dev` down (called only for drivers with a remove routine).
    fn driver_remove(&self, drv: &DeviceDriver, dev: &Device);
}

/// Something that is shown each device of a bus in turn; an error stops
/// the walk.
pub trait DeviceVisitor {
    fn visit(&mut self, dev: &Device) -> Result<(), BusError>;
}

/// Something that is shown each driver of a bus in turn; an error stops
/// the walk.
pub trait DriverVisitor {
    fn visit(&mut self, drv: &DeviceDriver) -> Result<(), BusError>;
}

/// A registered bus with its devices and drivers (by registry position).
pub struct SubsysPrivate {
    pub bus: BusType,
    pub devices: Vec<usize>,
    pub drivers: Vec<usize>,
    pub drivers_autoprobe: bool,
    pub refcount: usize,
}

/// All buses, and the devices and drivers that they refer to.
pub struct BusRegistry {
    pub subsys: Vec<SubsysPrivate>,
    pub devices: Vec<Device>,
    pub drivers: Vec<DeviceDriver>,
}

impl Device {
    /// A device named `name` on no bus, with no driver or data.
    pub fn new(name: String) -> (d: Device)
        ensures
            d.name@ == name@,
            d.bus is None,
            d.driver is None,
            d.priv_data is None,
            d.dma_mask == 0,
            d.coherent_dma_mask == 0,
    {
        Device { name, bus: None, driver: None, priv_data: None, dma_mask: 0, coherent_dma_mask: 0 }
    }

    /// Stores the driver's private data.
    pub fn set_priv_data(&mut self, data: usize)
        ensures
            final(self).priv_data == Some(data),
            final(self).name == old(self).name,
            final(self).bus == old(self).bus,
            final(self).driver == old(self).driver,
            final(self).dma_mask == old(self).dma_mask,
            final(self).coherent_dma_mask == old(self).coherent_dma_mask,
    {
        self.priv_data = Some(data);
    }

    /// The driver's private data.
    pub fn get_priv_data(&self) -> (d: Option<usize>)
        ensures
            d == self.priv_data,
    {
        self.priv_data
    }

    /// Devices here sit behind no IOMMU.
    pub fn has_iommu(&self) -> (b: bool)
        ensures
            !b,
    {
        false
    }

    /// Devices here are not DMA-coherent.
    pub fn is_dma_coherent(&self) -> (b: bool)
        ensures
            !b,
    {
        false
    }
}

impl DeviceDriver {
    /// A driver named `name` on no bus, without hooks or devices.
    pub fn new(name: &'static str) -> (d: DeviceDriver)
        ensures
            d.name == name,
            d.bus is None,
            !d.has_probe,
            !d.has_remove,
            d.devices@ == Seq::<usize>::empty(),
    {
        DeviceDriver { name, bus: None, has_probe: false, has_remove: false, devices: Vec::new() }
    }
}

impl SubsysPrivate {
    /// A freshly registered bus: no devices or drivers, autoprobe on, one
    /// reference.
    pub fn new(bus: BusType) -> (s: SubsysPrivate)
        ensures
            s.bus == bus,
            s.devices@ == Seq::<usize>::empty(),
            s.drivers@ == Seq::<usize>::empty(),
            s.drivers_autoprobe,
            s.refcount == 1,
    {
        SubsysPrivate { bus, devices: Vec::new(), drivers: Vec::new(), drivers_autoprobe: true, refcount: 1 }
    }

    /// Takes one more reference.
    pub fn get(&mut self)
        requires
            old(self).refcount < usize::MAX,
        ensures
            final(self).refcount == old(self).refcount + 1,
            same_but_refcount(*old(self), *final(self)),
    {
        self.refcount = self.refcount + 1;
    }

    /// Drops one reference (never below zero); true when none is left.
    pub fn put(&mut self) -> (last: bool)
        ensures
            final(self).refcount == if old(self).refcount > 0 { old(self).refcount - 1 } else { 0 },
            same_but_refcount(*old(self), *final(self)),
            last == (final(self).refcount == 0),
    {
        if self.refcount > 0 {
            self.refcount = self.refcount - 1;
        }
        self.refcount == 0
    }
}

/// `a` and `b` differ at most in their reference count.
pub open spec fn same_but_refcount(a: SubsysPrivate, b: SubsysPrivate) -> bool {
    a.bus == b.bus && a.devices == b.devices && a.drivers == b.drivers && a.drivers_autoprobe == b.drivers_autoprobe
}

/// First registered bus named `name`, searching from position `i`.
pub open spec fn first_bus(s: Seq<SubsysPrivate>, name: Seq<char>, i: int) -> Option<int>
    decreases s.len() - i,
{
    if i < 0 || i >= s.len() {
        None
    } else if s[i].bus.name@ == name {
        Some(i)
    } else {
        first_bus(s, name, i + 1)
    }
}

/// What `first_bus` finds is in range and carries the name; before it no
/// bus has the name.
pub proof fn lemma_first_bus(s: Seq<SubsysPrivate>, name: Seq<char>, i: int)
    requires
        0 <= i,
    ensures
        first_bus(s, name, i) is Some ==> ({
            let k = first_bus(s, name, i).unwrap();
            i <= k < s.len() && s[k].bus.name@ == name
        }),
        first_bus(s, name, i) is Some ==> forall|j: int| i <= j < first_bus(s, name, i).unwrap() ==> s[j].bus.name@ != name,
        first_bus(s, name, i) is None ==> forall|j: int| i <= j < s.len() ==> s[j].bus.name@ != name,
    decreases s.len() - i,
{
    if i < s.len() && s[i].bus.name@ != name {
        lemma_first_bus(s, name, i + 1);
    }
}

/// Position of the registered bus named `name`.
pub fn find_subsys(subsys: &Vec<SubsysPrivate>, name: &str) -> (r: Option<usize>)
    ensures
        r matches Some(k) ==> first_bus(subsys@, name@, 0) == Some(k as int),
        r is None ==> first_bus(subsys@, name@, 0) is None,
{
    let mut i: usize = 0;
    while i < subsys.len()
        invariant
            i <= subsys@.len(),
            first_bus(subsys@, name@, 0) == first_bus(subsys@, name@, i as int),
        decreases subsys.len() - i,
    {
        if str_eq(subsys[i].bus.name, name) {
            return Some(i);
        }
        i = i + 1;
    }
    None
}

/// Every position that the registry stores refers to an entry of it.
pub open spec fn registry_wf(reg: &BusRegistry) -> bool {
    &&& forall|i: int, j: int| 0 <= i < reg.subsys@.len() && 0 <= j < reg.subsys@[i].devices@.len()
        ==> #[trigger] reg.subsys@[i].devices@[j] < reg.devices@.len()
    &&& forall|i: int, j: int| 0 <= i < reg.subsys@.len() && 0 <= j < reg.subsys@[i].drivers@.len()
        ==> #[trigger] reg.subsys@[i].drivers@[j] < reg.drivers@.len()
    &&& forall|d: int| 0 <= d < reg.devices@.len() && (#[trigger] reg.devices@[d]).driver is Some
        ==> reg.devices@[d].driver.unwrap() < reg.drivers@.len()
    &&& forall|k: int, j: int| 0 <= k < reg.drivers@.len() && 0 <= j < reg.drivers@[k].devices@.len()
        ==> #[trigger] reg.drivers@[k].devices@[j] < reg.devices@.len()
}

/// `s` without any occurrence of `x`, order kept.
pub open spec fn without(s: Seq<usize>, x: usize) -> Seq<usize>
    decreases s.len(),
{
    if s.len() == 0 {
        s
    } else {
        without(s.drop_last(), x) + if s.last() == x { Seq::<usize>::empty() } else { seq![s.last()] }
    }
}

/// Entries of `without(s, x)` are entries of `s` other than `x`.
pub proof fn lemma_without(s: Seq<usize>, x: usize)
    ensures
        forall|j: int| 0 <= j < without(s, x).len() ==> s.contains(#[trigger] without(s, x)[j]) && without(s, x)[j] != x,
        without(s, x).len() <= s.len(),
    decreases s.len(),
{
    if s.len() > 0 {
        lemma_without(s.drop_last(), x);
        let w = without(s.drop_last(), x);
        assert forall|j: int| 0 <= j < without(s, x).len() implies s.contains(#[trigger] without(s, x)[j]) && without(s, x)[j] != x by {
            if j < w.len() {
                let y = w[j];
                assert(s.drop_last().contains(y));
                let t = choose|t: int| 0 <= t < s.drop_last().len() && s.drop_last()[t] == y;
                assert(s[t] == y);
            } else {
                assert(s[s.len() - 1] == s.last());
            }
        }
    }
}

/// Copy of `v` without `x`.
pub fn remove_all(v: &Vec<usize>, x: usize) -> (r: Vec<usize>)
    ensures
        r@ == without(v@, x),
{
    let mut out: Vec<usize> = Vec::new();
    let mut i: usize = 0;
    while i < v.len()
        invariant
            i <= v@.len(),
            out@ == without(v@.subrange(0, i as int), x),
        decreases v.len() - i,
    {
        assert(v@.subrange(0, i as int + 1).drop_last() =~= v@.subrange(0, i as int));
        if v[i] != x {
            out.push(v[i]);
        }
        i = i + 1;
        assert(out@ =~= without(v@.subrange(0, i as int), x));
    }
    assert(v@.subrange(0, v@.len() as int) =~= v@);
    out
}

/// Whether `x` occurs in `v`.
pub fn contains_index(v: &Vec<usize>, x: usize) -> (b: bool)
    ensures
        b == v@.contains(x),
{
    let mut i: usize = 0;
    while i < v.len()
        invariant
            i <= v@.len(),
            forall|j: int| 0 <= j < i ==> v@[j] != x,
        decreases v.len() - i,
    {
        if v[i] == x {
            return true;
        }
        i = i + 1;
    }
    false
}

impl BusRegistry {
    /// No buses, devices or drivers.
    pub fn new() -> (r: BusRegistry)
        ensures
            r.subsys@.len() == 0,
            r.devices@.len() == 0,
            r.drivers@.len() == 0,
            registry_wf(&r),
    {
        BusRegistry { subsys: Vec::new(), devices: Vec::new(), drivers: Vec::new() }
    }

    /// Stores a device (unbound, on no bus's list yet) and returns its position.
    pub fn add_device_object(&mut self, dev: Device) -> (i: usize)
        requires
            registry_wf(old(self)),
            dev.driver is None,
        ensures
            registry_wf(final(self)),
            i == old(self).devices@.len(),
            final(self).devices@ == old(self).devices@.push(dev),
            final(self).drivers@ == old(self).drivers@,
            final(self).subsys@ == old(self).subsys@,
    {
        self.devices.push(dev);
        proof {
            assert forall|d: int| 0 <= d < self.devices@.len() && (#[trigger] self.devices@[d]).driver is Some
                implies self.devices@[d].driver.unwrap() < self.drivers@.len() by {
                if d < old(self).devices@.len() {
                    assert(self.devices@[d] == old(self).devices@[d]);
                }
            }
        }
        self.devices.len() - 1
    }

    /// Stores a driver (with no bound devices) and returns its position.
    pub fn add_driver_object(&mut self, drv: DeviceDriver) -> (i: usize)
        requires
            registry_wf(old(self)),
            drv.devices@.len() == 0,
        ensures
            registry_wf(final(self)),
            i == old(self).drivers@.len(),
            final(self).drivers@ == old(self).drivers@.push(drv),
            final(self).devices@ == old(self).devices@,
            final(self).subsys@ == old(self).subsys@,
    {
        self.drivers.push(drv);
        proof {
            assert forall|k: int, j: int| 0 <= k < self.drivers@.len() && 0 <= j < self.drivers@[k].devices@.len()
                implies #[trigger] self.drivers@[k].devices@[j] < self.devices@.len() by {
                if k < old(self).drivers@.len() {
                    assert(self.drivers@[k] == old(self).drivers@[k]);
                }
            }
        }
        self.drivers.len() - 1
    }
}


/// `b` is `a` with only its device list changed.
pub open spec fn same_but_devices(a: SubsysPrivate, b: SubsysPrivate) -> bool {
    a.bus == b.bus && a.drivers@ == b.drivers@ && a.drivers_autoprobe == b.drivers_autoprobe && a.refcount == b.refcount
}

/// `b` is `a` with only its driver list changed.
pub open spec fn same_but_drivers(a: SubsysPrivate, b: SubsysPrivate) -> bool {
    a.bus == b.bus && a.devices@ == b.devices@ && a.drivers_autoprobe == b.drivers_autoprobe && a.refcount == b.refcount
}

/// The registered bus that device `dev` sits on, if it sits on one.
pub open spec fn bus_of_device(reg: &BusRegistry, dev: int) -> Option<int> {
    match reg.devices@[dev].bus {
        None => None,
        Some(b) => first_bus(reg.subsys@, b.name@, 0),
    }
}

/// The registered bus that driver `drv` belongs to, if any.
pub open spec fn bus_of_driver(reg: &BusRegistry, drv: int) -> Option<int> {
    match reg.drivers@[drv].bus {
        None => None,
        Some(b) => first_bus(reg.subsys@, b.name@, 0),
    }
}

/// Registers a bus. Fails with `Busy` when a bus of that name is already
/// registered; otherwise the bus is appended with no devices or drivers,
/// autoprobe on and one reference.
pub fn bus_register(reg: &mut BusRegistry, bus: BusType) -> (r: Result<(), BusError>)
    requires
        registry_wf(old(reg)),
    ensures
        registry_wf(final(reg)),
        final(reg).devices@ == old(reg).devices@,
        final(reg).drivers@ == old(reg).drivers@,
        r is Err <==> first_bus(old(reg).subsys@, bus.name@, 0) is Some,
        r is Err ==> r == Err::<(), BusError>(BusError::Busy) && final(reg).subsys@ == old(reg).subsys@,
        r is Ok ==> ({
            let n = old(reg).subsys@.len() as int;
            &&& final(reg).subsys@.len() == n + 1
            &&& final(reg).subsys@.subrange(0, n) == old(reg).subsys@
            &&& final(reg).subsys@[n].bus == bus
            &&& final(reg).subsys@[n].devices@.len() == 0
            &&& final(reg).subsys@[n].drivers@.len() == 0
            &&& final(reg).subsys@[n].drivers_autoprobe
            &&& final(reg).subsys@[n].refcount == 1
        }),
{
    if find_subsys(&reg.subsys, bus.name).is_some() {
        return Err(BusError::Busy);
    }
    reg.subsys.push(SubsysPrivate::new(bus));
    proof {
        let n = old(reg).subsys@.len() as int;
        assert(reg.subsys@.subrange(0, n) =~= old(reg).subsys@);
        assert forall|i: int, j: int| 0 <= i < reg.subsys@.len() && 0 <= j < reg.subsys@[i].devices@.len()
            implies #[trigger] reg.subsys@[i].devices@[j] < reg.devices@.len() by {
            assert(i < n);
            assert(reg.subsys@[i] == old(reg).subsys@[i]);
        }
        assert forall|i: int, j: int| 0 <= i < reg.subsys@.len() && 0 <= j < reg.subsys@[i].drivers@.len()
            implies #[trigger] reg.subsys@[i].drivers@[j] < reg.drivers@.len() by {
            assert(i < n);
            assert(reg.subsys@[i] == old(reg).subsys@[i]);
        }
    }
    Ok(())
}

/// Unregisters the bus named `name`: `InvalidBus` when there is none,
/// otherwise its entry is removed.
pub fn bus_unregister(reg: &mut BusRegistry, name: &str) -> (r: Result<(), BusError>)
    requires
        registry_wf(old(reg)),
    ensures
        registry_wf(final(reg)),
        final(reg).devices@ == old(reg).devices@,
        final(reg).drivers@ == old(reg).drivers@,
        r is Err <==> first_bus(old(reg).subsys@, name@, 0) is None,
        r is Err ==> r == Err::<(), BusError>(BusError::InvalidBus) && final(reg).subsys@ == old(reg).subsys@,
        r is Ok ==> final(reg).subsys@ == old(reg).subsys@.remove(first_bus(old(reg).subsys@, name@, 0).unwrap()),
{
    proof { lemma_first_bus(reg.subsys@, name@, 0); }
    let pos = match find_subsys(&reg.subsys, name) {
        None => return Err(BusError::InvalidBus),
        Some(p) => p,
    };
    reg.subsys.remove(pos);
    proof {
        assert forall|i: int, j: int| 0 <= i < reg.subsys@.len() && 0 <= j < reg.subsys@[i].devices@.len()
            implies #[trigger] reg.subsys@[i].devices@[j] < reg.devices@.len() by {
            if i < pos { assert(reg.subsys@[i] == old(reg).subsys@[i]); }
            else { assert(reg.subsys@[i] == old(reg).subsys@[i + 1]); }
        }
        assert forall|i: int, j: int| 0 <= i < reg.subsys@.len() && 0 <= j < reg.subsys@[i].drivers@.len()
            implies #[trigger] reg.subsys@[i].drivers@[j] < reg.drivers@.len() by {
            if i < pos { assert(reg.subsys@[i] == old(reg).subsys@[i]); }
            else { assert(reg.subsys@[i] == old(reg).subsys@[i + 1]); }
        }
    }
    Ok(())
}

/// Puts device `dev` on its bus's device list. `InvalidBus` when it has
/// no bus or its bus is not registered, `Busy` when it is already listed.
pub fn bus_add_device(reg: &mut BusRegistry, dev: usize) -> (r: Result<(), BusError>)
    requires
        registry_wf(old(reg)),
        dev < old(reg).devices@.len(),
    ensures
        registry_wf(final(reg)),
        final(reg).devices@ == old(reg).devices@,
        final(reg).drivers@ == old(reg).drivers@,
        bus_of_device(old(reg), dev as int) is None ==> r == Err::<(), BusError>(BusError::InvalidBus),
        bus_of_device(old(reg), dev as int) matches Some(k) ==> ({
            &&& old(reg).subsys@[k as int].devices@.contains(dev) ==> r == Err::<(), BusError>(BusError::Busy)
            &&& !old(reg).subsys@[k as int].devices@.contains(dev) ==> r is Ok
        }),
        r is Err ==> final(reg).subsys@ == old(reg).subsys@,
        r is Ok ==> ({
            let k = bus_of_device(old(reg), dev as int).unwrap();
            &&& final(reg).subsys@.len() == old(reg).subsys@.len()
            &&& forall|i: int| 0 <= i < old(reg).subsys@.len() && i != k ==> final(reg).subsys@[i] == old(reg).subsys@[i]
            &&& same_but_devices(old(reg).subsys@[k as int], final(reg).subsys@[k])
            &&& final(reg).subsys@[k].devices@ == old(reg).subsys@[k as int].devices@.push(dev)
        }),
{
    let bus = match reg.devices[dev].bus {
        None => return Err(BusError::InvalidBus),
        Some(b) => b,
    };
    proof { lemma_first_bus(reg.subsys@, bus.name@, 0); }
    let k = match find_subsys(&reg.subsys, bus.name) {
        None => return Err(BusError::InvalidBus),
        Some(k) => k,
    };
    if contains_index(&reg.subsys[k].devices, dev) {
        return Err(BusError::Busy);
    }
    reg.subsys[k].devices.push(dev);
    proof {
        assert forall|i: int, j: int| 0 <= i < reg.subsys@.len() && 0 <= j < reg.subsys@[i].devices@.len()
            implies #[trigger] reg.subsys@[i].devices@[j] < reg.devices@.len() by {
            if i != k { assert(reg.subsys@[i] == old(reg).subsys@[i]); }
            else if j < old(reg).subsys@[k as int].devices@.len() { assert(reg.subsys@[i].devices@[j] == old(reg).subsys@[k as int].devices@[j]); }
        }
        assert forall|i: int, j: int| 0 <= i < reg.subsys@.len() && 0 <= j < reg.subsys@[i].drivers@.len()
            implies #[trigger] reg.subsys@[i].drivers@[j] < reg.drivers@.len() by {
            if i != k { assert(reg.subsys@[i] == old(reg).subsys@[i]); }
            else { assert(reg.subsys@[i].drivers@ == old(reg).subsys@[k as int].drivers@); }
        }
    }
    Ok(())
}


/// `b` is driver `a` with only its device list changed.
pub open spec fn same_driver_but_devices(a: DeviceDriver, b: DeviceDriver) -> bool {
    a.name == b.name && a.bus == b.bus && a.has_probe == b.has_probe && a.has_remove == b.has_remove
}

/// Device `d` with its driver set to `drv`.
pub open spec fn with_driver(d: Device, drv: Option<usize>) -> Device {
    Device { driver: drv, ..d }
}

/// The registry after binding device `dev` to driver `drv`: the device
/// names the driver and the driver lists the device last.
pub open spec fn bound(old_reg: &BusRegistry, new_reg: &BusRegistry, drv: int, dev: int) -> bool {
    &&& new_reg.subsys@ == old_reg.subsys@
    &&& new_reg.devices@ == old_reg.devices@.update(dev, with_driver(old_reg.devices@[dev], Some(drv as usize)))
    &&& new_reg.drivers@.len() == old_reg.drivers@.len()
    &&& forall|k: int| 0 <= k < old_reg.drivers@.len() && k != drv ==> new_reg.drivers@[k] == old_reg.drivers@[k]
    &&& same_driver_but_devices(old_reg.drivers@[drv], new_reg.drivers@[drv])
    &&& new_reg.drivers@[drv].devices@ == old_reg.drivers@[drv].devices@.push(dev as usize)
}

/// Tries to bind device `dev` to driver `drv`: `Busy` when the device
/// already has a driver, `InvalidBus` when it has no bus, `NoMatch` when
/// its bus has a match rule that refuses the pair, the probe's error when
/// the driver's probe fails. Otherwise the two are bound; in particular a
/// free device on a bus without match rule binds to a driver without probe.
pub fn driver_probe_device<C: BusCallbacks>(reg: &mut BusRegistry, drv: usize, dev: usize, cb: &C) -> (r: Result<(), BusError>)
    requires
        registry_wf(old(reg)),
        drv < old(reg).drivers@.len(),
        dev < old(reg).devices@.len(),
    ensures
        registry_wf(final(reg)),
        old(reg).devices@[dev as int].driver is Some ==> r == Err::<(), BusError>(BusError::Busy),
        old(reg).devices@[dev as int].driver is None && old(reg).devices@[dev as int].bus is None
            ==> r == Err::<(), BusError>(BusError::InvalidBus),
        old(reg).devices@[dev as int].driver is None && old(reg).devices@[dev as int].bus is Some
            && !old(reg).devices@[dev as int].bus.unwrap().has_match && !old(reg).drivers@[drv as int].has_probe
            ==> r is Ok,
        r is Err ==> final(reg).subsys@ == old(reg).subsys@ && final(reg).devices@ == old(reg).devices@
            && final(reg).drivers@ == old(reg).drivers@,
        r is Ok ==> old(reg).devices@[dev as int].driver is None && old(reg).devices@[dev as int].bus is Some
            && bound(old(reg), final(reg), drv as int, dev as int),
{
    if reg.devices[dev].driver.is_some() {
        return Err(BusError::Busy);
    }
    let bus = match reg.devices[dev].bus {
        None => return Err(BusError::InvalidBus),
        Some(b) => b,
    };
    if bus.has_match && !cb.bus_match(&bus, &reg.devices[dev], &reg.drivers[drv]) {
        return Err(BusError::NoMatch);
    }
    if reg.drivers[drv].has_probe {
        match cb.driver_probe(&reg.drivers[drv], &reg.devices[dev]) {
            Err(e) => return Err(e),
            Ok(()) => {},
        }
    }
    reg.devices[dev].driver = Some(drv);
    reg.drivers[drv].devices.push(dev);
    proof {
        assert(reg.devices@ =~= old(reg).devices@.update(dev as int, with_driver(old(reg).devices@[dev as int], Some(drv))));
        assert forall|d: int| 0 <= d < reg.devices@.len() && (#[trigger] reg.devices@[d]).driver is Some
            implies reg.devices@[d].driver.unwrap() < reg.drivers@.len() by {
            if d != dev { assert(reg.devices@[d] == old(reg).devices@[d]); }
        }
        assert forall|k: int, j: int| 0 <= k < reg.drivers@.len() && 0 <= j < reg.drivers@[k].devices@.len()
            implies #[trigger] reg.drivers@[k].devices@[j] < reg.devices@.len() by {
            if k != drv { assert(reg.drivers@[k] == old(reg).drivers@[k]); }
            else if j < old(reg).drivers@[k].devices@.len() { assert(reg.drivers@[k].devices@[j] == old(reg).drivers@[k].devices@[j]); }
        }
    }
    Ok(())
}


/// From `o` to `n` the only change is that free devices got bound to
/// driver `drv`, which lists them after the devices it had.
pub open spec fn binds_only(o: &BusRegistry, n: &BusRegistry, drv: int) -> bool {
    &&& n.subsys@ == o.subsys@
    &&& n.devices@.len() == o.devices@.len()
    &&& forall|d: int| 0 <= d < o.devices@.len() ==> (#[trigger] n.devices@[d] == o.devices@[d]
        || (o.devices@[d].driver is None && n.devices@[d] == with_driver(o.devices@[d], Some(drv as usize))))
    &&& n.drivers@.len() == o.drivers@.len()
    &&& forall|k: int| 0 <= k < o.drivers@.len() && k != drv ==> #[trigger] n.drivers@[k] == o.drivers@[k]
    &&& same_driver_but_devices(o.drivers@[drv], n.drivers@[drv])
    &&& o.drivers@[drv].devices@.is_prefix_of(n.drivers@[drv].devices@)
}

/// From `o` to `n` the only change is that free devices got bound to
/// drivers, which list them after the devices they had.
pub open spec fn binds_some(o: &BusRegistry, n: &BusRegistry) -> bool {
    &&& n.subsys@ == o.subsys@
    &&& n.devices@.len() == o.devices@.len()
    &&& forall|d: int| 0 <= d < o.devices@.len() ==> (#[trigger] n.devices@[d] == o.devices@[d]
        || (o.devices@[d].driver is None && exists|k: usize| k < o.drivers@.len() && n.devices@[d] == with_driver(o.devices@[d], Some(k))))
    &&& n.drivers@.len() == o.drivers@.len()
    &&& forall|k: int| 0 <= k < o.drivers@.len() ==> same_driver_but_devices(o.drivers@[k], #[trigger] n.drivers@[k])
        && o.drivers@[k].devices@.is_prefix_of(n.drivers@[k].devices@)
}

/// Copy of a list of positions.
pub fn copy_indices(v: &Vec<usize>) -> (r: Vec<usize>)
    ensures
        r@ == v@,
{
    let mut out: Vec<usize> = Vec::new();
    let mut i: usize = 0;
    while i < v.len()
        invariant
            i <= v@.len(),
            out@ == v@.subrange(0, i as int),
        decreases v.len() - i,
    {
        out.push(v[i]);
        i = i + 1;
        assert(out@ =~= v@.subrange(0, i as int));
    }
    assert(v@.subrange(0, v@.len() as int) =~= v@);
    out
}

/// Offers driver `drv` every device of its bus that has no driver yet, in
/// list order (probe failures are passed over). `InvalidBus` when the
/// driver has no bus or its bus is not registered.
pub fn driver_attach<C: BusCallbacks>(reg: &mut BusRegistry, drv: usize, cb: &C) -> (r: Result<(), BusError>)
    requires
        registry_wf(old(reg)),
        drv < old(reg).drivers@.len(),
    ensures
        registry_wf(final(reg)),
        r is Err <==> bus_of_driver(old(reg), drv as int) is None,
        r is Err ==> r == Err::<(), BusError>(BusError::InvalidBus) && final(reg).subsys@ == old(reg).subsys@
            && final(reg).devices@ == old(reg).devices@ && final(reg).drivers@ == old(reg).drivers@,
        r is Ok ==> binds_only(old(reg), final(reg), drv as int),
{
    let bus = match reg.drivers[drv].bus {
        None => return Err(BusError::InvalidBus),
        Some(b) => b,
    };
    let k = match find_subsys(&reg.subsys, bus.name) {
        None => return Err(BusError::InvalidBus),
        Some(k) => k,
    };
    proof { lemma_first_bus(reg.subsys@, bus.name@, 0); }
    let devices = copy_indices(&reg.subsys[k].devices);
    let mut i: usize = 0;
    while i < devices.len()
        invariant
            registry_wf(reg),
            drv < reg.drivers@.len(),
            k < reg.subsys@.len(),
            reg.subsys@ == old(reg).subsys@,
            devices@ == old(reg).subsys@[k as int].devices@,
            binds_only(old(reg), reg, drv as int),
            i <= devices@.len(),
        decreases devices.len() - i,
    {
        let d = devices[i];
        assert(reg.subsys@[k as int].devices@[i as int] == d);
        if reg.devices[d].driver.is_none() {
            let ghost mid = *reg;
            let _ = driver_probe_device(reg, drv, d, cb);
            proof {
                assert forall|x: int| 0 <= x < old(reg).devices@.len() implies (#[trigger] reg.devices@[x] == old(reg).devices@[x]
                    || (old(reg).devices@[x].driver is None && reg.devices@[x] == with_driver(old(reg).devices@[x], Some(drv)))) by {
                    if x == d && reg.devices@[x] != mid.devices@[x] {
                        assert(mid.devices@[x].driver is None);
                        assert(mid.devices@[x] == old(reg).devices@[x]);
                    }
                }
                assert(old(reg).drivers@[drv as int].devices@.is_prefix_of(reg.drivers@[drv as int].devices@)) by {
                    assert(old(reg).drivers@[drv as int].devices@.is_prefix_of(mid.drivers@[drv as int].devices@));
                }
            }
        }
        i = i + 1;
    }
    Ok(())
}

/// Offers device `dev` to the drivers of its bus in list order and stops at
/// the first that binds it; `NoMatch` when none does, `InvalidBus` when the
/// device has no bus or its bus is not registered.
pub fn device_attach<C: BusCallbacks>(reg: &mut BusRegistry, dev: usize, cb: &C) -> (r: Result<(), BusError>)
    requires
        registry_wf(old(reg)),
        dev < old(reg).devices@.len(),
    ensures
        registry_wf(final(reg)),
        bus_of_device(old(reg), dev as int) is None ==> r == Err::<(), BusError>(BusError::InvalidBus),
        bus_of_device(old(reg), dev as int) is Some && r is Err ==> r == Err::<(), BusError>(BusError::NoMatch),
        old(reg).devices@[dev as int].driver is Some ==> r is Err,
        r is Err ==> final(reg).subsys@ == old(reg).subsys@ && final(reg).devices@ == old(reg).devices@
            && final(reg).drivers@ == old(reg).drivers@,
        r is Ok ==> exists|k: usize| k < old(reg).drivers@.len() && bound(old(reg), final(reg), k as int, dev as int),
{
    let bus = match reg.devices[dev].bus {
        None => return Err(BusError::InvalidBus),
        Some(b) => b,
    };
    let k = match find_subsys(&reg.subsys, bus.name) {
        None => return Err(BusError::InvalidBus),
        Some(k) => k,
    };
    proof { lemma_first_bus(reg.subsys@, bus.name@, 0); }
    let drivers = copy_indices(&reg.subsys[k].drivers);
    let mut i: usize = 0;
    while i < drivers.len()
        invariant
            registry_wf(reg),
            dev < reg.devices@.len(),
            k < reg.subsys@.len(),
            reg.subsys@ == old(reg).subsys@,
            reg.devices@ == old(reg).devices@,
            reg.drivers@ == old(reg).drivers@,
            drivers@ == old(reg).subsys@[k as int].drivers@,
            bus_of_device(old(reg), dev as int) == Some(k as int),
            i <= drivers@.len(),
        decreases drivers.len() - i,
    {
        let dk = drivers[i];
        assert(reg.subsys@[k as int].drivers@[i as int] == dk);
        if driver_probe_device(reg, dk, dev, cb).is_ok() {
            assert(dk < old(reg).drivers@.len());
            assert(bound(old(reg), reg, dk as int, dev as int));
            return Ok(());
        }
        i = i + 1;
    }
    Err(BusError::NoMatch)
}

/// Looks for a driver for a newly added device (same as `device_attach`).
pub fn bus_probe_device<C: BusCallbacks>(reg: &mut BusRegistry, dev: usize, cb: &C) -> (r: Result<(), BusError>)
    requires
        registry_wf(old(reg)),
        dev < old(reg).devices@.len(),
    ensures
        registry_wf(final(reg)),
        bus_of_device(old(reg), dev as int) is None ==> r == Err::<(), BusError>(BusError::InvalidBus),
        bus_of_device(old(reg), dev as int) is Some && r is Err ==> r == Err::<(), BusError>(BusError::NoMatch),
        old(reg).devices@[dev as int].driver is Some ==> r is Err,
        r is Err ==> final(reg).subsys@ == old(reg).subsys@ && final(reg).devices@ == old(reg).devices@
            && final(reg).drivers@ == old(reg).drivers@,
        r is Ok ==> exists|k: usize| k < old(reg).drivers@.len() && bound(old(reg), final(reg), k as int, dev as int),
{
    device_attach(reg, dev, cb)
}

/// Offers every driverless device of the bus named like `bus` to the
/// bus's drivers. `InvalidBus` when that bus is not registered.
pub fn bus_rescan_devices<C: BusCallbacks>(reg: &mut BusRegistry, bus: &BusType, cb: &C) -> (r: Result<(), BusError>)
    requires
        registry_wf(old(reg)),
    ensures
        registry_wf(final(reg)),
        r is Err <==> first_bus(old(reg).subsys@, bus.name@, 0) is None,
        r is Err ==> r == Err::<(), BusError>(BusError::InvalidBus) && final(reg).subsys@ == old(reg).subsys@
            && final(reg).devices@ == old(reg).devices@ && final(reg).drivers@ == old(reg).drivers@,
        r is Ok ==> binds_some(old(reg), final(reg)),
{
    let k = match find_subsys(&reg.subsys, bus.name) {
        None => return Err(BusError::InvalidBus),
        Some(k) => k,
    };
    proof { lemma_first_bus(reg.subsys@, bus.name@, 0); }
    let devices = copy_indices(&reg.subsys[k].devices);
    let mut i: usize = 0;
    while i < devices.len()
        invariant
            registry_wf(reg),
            k < reg.subsys@.len(),
            reg.subsys@ == old(reg).subsys@,
            devices@ == old(reg).subsys@[k as int].devices@,
            binds_some(old(reg), reg),
            i <= devices@.len(),
        decreases devices.len() - i,
    {
        let d = devices[i];
        assert(reg.subsys@[k as int].devices@[i as int] == d);
        if reg.devices[d].driver.is_none() {
            let ghost mid = *reg;
            let res = device_attach(reg, d, cb);
            proof {
                if res is Ok {
                    let kk = choose|kk: usize| kk < mid.drivers@.len() && bound(&mid, reg, kk as int, d as int);
                    assert forall|x: int| 0 <= x < old(reg).devices@.len() implies (#[trigger] reg.devices@[x] == old(reg).devices@[x]
                        || (old(reg).devices@[x].driver is None && exists|k2: usize| k2 < old(reg).drivers@.len()
                            && reg.devices@[x] == with_driver(old(reg).devices@[x], Some(k2)))) by {
                        if x == d {
                            assert(mid.devices@[x] == old(reg).devices@[x]);
                            assert(reg.devices@[x] == with_driver(old(reg).devices@[x], Some(kk)));
                        } else {
                            assert(reg.devices@[x] == mid.devices@[x]);
                        }
                    }
                    assert forall|k2: int| 0 <= k2 < old(reg).drivers@.len() implies same_driver_but_devices(old(reg).drivers@[k2], #[trigger] reg.drivers@[k2])
                        && old(reg).drivers@[k2].devices@.is_prefix_of(reg.drivers@[k2].devices@) by {
                        assert(same_driver_but_devices(old(reg).drivers@[k2], mid.drivers@[k2]));
                        assert(old(reg).drivers@[k2].devices@.is_prefix_of(mid.drivers@[k2].devices@));
                        if k2 == kk {
                            assert(mid.drivers@[k2].devices@.is_prefix_of(reg.drivers@[k2].devices@));
                        }
                    }
                }
            }
        }
        i = i + 1;
    }
    Ok(())
}


/// The registry with the reference count of bus `k` replaced by `count`.
pub open spec fn with_refcount(reg: &BusRegistry, new_reg: &BusRegistry, k: int, count: int) -> bool {
    &&& new_reg.devices@ == reg.devices@
    &&& new_reg.drivers@ == reg.drivers@
    &&& new_reg.subsys@.len() == reg.subsys@.len()
    &&& forall|i: int| 0 <= i < reg.subsys@.len() && i != k ==> #[trigger] new_reg.subsys@[i] == reg.subsys@[i]
    &&& 0 <= k < reg.subsys@.len() ==> {
        &&& same_but_refcount(reg.subsys@[k], new_reg.subsys@[k])
        &&& new_reg.subsys@[k].refcount == count
    }
}

/// Takes (`take`) or drops a reference on the bus at position `k`.
fn update_subsys(reg: &mut BusRegistry, k: usize, take: bool) -> (last: bool)
    requires
        registry_wf(old(reg)),
        k < old(reg).subsys@.len(),
        take ==> old(reg).subsys@[k as int].refcount < usize::MAX,
    ensures
        registry_wf(final(reg)),
        with_refcount(old(reg), final(reg), k as int,
            if take { old(reg).subsys@[k as int].refcount + 1 }
            else if old(reg).subsys@[k as int].refcount > 0 { old(reg).subsys@[k as int].refcount - 1 }
            else { 0 }),
        !take ==> last == (final(reg).subsys@[k as int].refcount == 0),
{
    let mut sp = reg.subsys.remove(k);
    let last = if take {
        sp.get();
        false
    } else {
        sp.put()
    };
    reg.subsys.insert(k, sp);
    proof {
        assert forall|i: int| 0 <= i < old(reg).subsys@.len() && i != k implies #[trigger] reg.subsys@[i] == old(reg).subsys@[i] by {
            if i < k { } else { }
        }
        assert forall|i: int, j: int| 0 <= i < reg.subsys@.len() && 0 <= j < reg.subsys@[i].devices@.len()
            implies #[trigger] reg.subsys@[i].devices@[j] < reg.devices@.len() by {
            assert(reg.subsys@[i].devices@ == old(reg).subsys@[i].devices@);
        }
        assert forall|i: int, j: int| 0 <= i < reg.subsys@.len() && 0 <= j < reg.subsys@[i].drivers@.len()
            implies #[trigger] reg.subsys@[i].drivers@[j] < reg.drivers@.len() by {
            assert(reg.subsys@[i].drivers@ == old(reg).subsys@[i].drivers@);
        }
    }
    last
}

/// Finds the registered bus named like `bus` and takes a reference on it;
/// its position, or `None` (and nothing changed) when there is none.
pub fn bus_to_subsys(reg: &mut BusRegistry, bus: &BusType) -> (r: Option<usize>)
    requires
        registry_wf(old(reg)),
        first_bus(old(reg).subsys@, bus.name@, 0) matches Some(k) ==> old(reg).subsys@[k].refcount < usize::MAX,
    ensures
        registry_wf(final(reg)),
        r matches Some(k) ==> first_bus(old(reg).subsys@, bus.name@, 0) == Some(k as int)
            && with_refcount(old(reg), final(reg), k as int, old(reg).subsys@[k as int].refcount + 1),
        r is None ==> first_bus(old(reg).subsys@, bus.name@, 0) is None && *final(reg) == *old(reg),
{
    proof { lemma_first_bus(reg.subsys@, bus.name@, 0); }
    match find_subsys(&reg.subsys, bus.name) {
        None => None,
        Some(k) => {
            update_subsys(reg, k, true);
            Some(k)
        },
    }
}

/// Drops a reference on the bus at position `idx` (never below zero);
/// nothing happens when there is no such bus.
pub fn subsys_put(reg: &mut BusRegistry, idx: usize)
    requires
        registry_wf(old(reg)),
    ensures
        registry_wf(final(reg)),
        idx < old(reg).subsys@.len() ==> with_refcount(old(reg), final(reg), idx as int,
            if old(reg).subsys@[idx as int].refcount > 0 { old(reg).subsys@[idx as int].refcount - 1 } else { 0 }),
        idx >= old(reg).subsys@.len() ==> *final(reg) == *old(reg),
{
    if idx < reg.subsys.len() {
        update_subsys(reg, idx, false);
    }
}

/// Whether a bus named like `bus` is registered. The reference taken to
/// look is given back, so the registry is left as it was.
pub fn bus_is_registered(reg: &mut BusRegistry, bus: &BusType) -> (b: bool)
    requires
        registry_wf(old(reg)),
        first_bus(old(reg).subsys@, bus.name@, 0) matches Some(k) ==> old(reg).subsys@[k].refcount < usize::MAX,
    ensures
        registry_wf(final(reg)),
        b == first_bus(old(reg).subsys@, bus.name@, 0) is Some,
        final(reg).subsys@ == old(reg).subsys@,
        final(reg).devices@ == old(reg).devices@,
        final(reg).drivers@ == old(reg).drivers@,
{
    let sp_idx = bus_to_subsys(reg, bus);
    let is_initialized = sp_idx.is_some();
    if let Some(idx) = sp_idx {
        subsys_put(reg, idx);
        proof {
            assert(reg.subsys@ =~= old(reg).subsys@);
        }
    }
    is_initialized
}

/// Takes device `dev` off its bus's list and detaches it from its driver
/// (whose remove routine runs, if it has one). `InvalidBus` when the
/// device has no bus or its bus is not registered.
pub fn bus_remove_device<C: BusCallbacks>(reg: &mut BusRegistry, dev: usize, cb: &C) -> (r: Result<(), BusError>)
    requires
        registry_wf(old(reg)),
        dev < old(reg).devices@.len(),
    ensures
        registry_wf(final(reg)),
        r is Err <==> bus_of_device(old(reg), dev as int) is None,
        r is Err ==> r == Err::<(), BusError>(BusError::InvalidBus) && final(reg).subsys@ == old(reg).subsys@
            && final(reg).devices@ == old(reg).devices@,
        final(reg).drivers@ == old(reg).drivers@,
        r is Ok ==> ({
            let k = bus_of_device(old(reg), dev as int).unwrap();
            &&& final(reg).subsys@.len() == old(reg).subsys@.len()
            &&& forall|i: int| 0 <= i < old(reg).subsys@.len() && i != k ==> final(reg).subsys@[i] == old(reg).subsys@[i]
            &&& same_but_devices(old(reg).subsys@[k], final(reg).subsys@[k])
            &&& final(reg).subsys@[k].devices@ == without(old(reg).subsys@[k].devices@, dev)
            &&& final(reg).devices@ == old(reg).devices@.update(dev as int, with_driver(old(reg).devices@[dev as int], None))
        }),
{
    let bus = match reg.devices[dev].bus {
        None => return Err(BusError::InvalidBus),
        Some(b) => b,
    };
    let k = match find_subsys(&reg.subsys, bus.name) {
        None => return Err(BusError::InvalidBus),
        Some(k) => k,
    };
    proof { lemma_first_bus(reg.subsys@, bus.name@, 0); }
    let kept = remove_all(&reg.subsys[k].devices, dev);
    proof { lemma_without(reg.subsys@[k as int].devices@, dev); }
    reg.subsys[k].devices = kept;
    if let Some(d) = reg.devices[dev].driver {
        if reg.drivers[d].has_remove {
            cb.driver_remove(&reg.drivers[d], &reg.devices[dev]);
        }
    }
    reg.devices[dev].driver = None;
    proof {
        assert(reg.devices@ =~= old(reg).devices@.update(dev as int, with_driver(old(reg).devices@[dev as int], None)));
        assert forall|i: int, j: int| 0 <= i < reg.subsys@.len() && 0 <= j < reg.subsys@[i].devices@.len()
            implies #[trigger] reg.subsys@[i].devices@[j] < reg.devices@.len() by {
            if i != k { assert(reg.subsys@[i] == old(reg).subsys@[i]); }
            else {
                let y = reg.subsys@[i].devices@[j];
                assert(old(reg).subsys@[i].devices@.contains(y));
            }
        }
        assert forall|i: int, j: int| 0 <= i < reg.subsys@.len() && 0 <= j < reg.subsys@[i].drivers@.len()
            implies #[trigger] reg.subsys@[i].drivers@[j] < reg.drivers@.len() by {
            if i != k { assert(reg.subsys@[i] == old(reg).subsys@[i]); }
            else { assert(reg.subsys@[i].drivers@ == old(reg).subsys@[i].drivers@); }
        }
        assert forall|d: int| 0 <= d < reg.devices@.len() && (#[trigger] reg.devices@[d]).driver is Some
            implies reg.devices@[d].driver.unwrap() < reg.drivers@.len() by {
            assert(reg.devices@[d] == old(reg).devices@[d]);
        }
    }
    Ok(())
}

/// Puts driver `drv` on its bus's driver list and, when the bus probes
/// automatically, offers it the bus's free devices. `InvalidBus` when the
/// driver has no bus or its bus is not registered.
pub fn bus_add_driver<C: BusCallbacks>(reg: &mut BusRegistry, drv: usize, cb: &C) -> (r: Result<(), BusError>)
    requires
        registry_wf(old(reg)),
        drv < old(reg).drivers@.len(),
    ensures
        registry_wf(final(reg)),
        r is Err <==> bus_of_driver(old(reg), drv as int) is None,
        r is Err ==> r == Err::<(), BusError>(BusError::InvalidBus) && final(reg).subsys@ == old(reg).subsys@
            && final(reg).devices@ == old(reg).devices@ && final(reg).drivers@ == old(reg).drivers@,
        r is Ok ==> ({
            let k = bus_of_driver(old(reg), drv as int).unwrap();
            &&& final(reg).subsys@.len() == old(reg).subsys@.len()
            &&& forall|i: int| 0 <= i < old(reg).subsys@.len() && i != k ==> final(reg).subsys@[i] == old(reg).subsys@[i]
            &&& same_but_drivers(old(reg).subsys@[k], final(reg).subsys@[k])
            &&& final(reg).subsys@[k].drivers@ == old(reg).subsys@[k].drivers@.push(drv)
            &&& old(reg).subsys@[k].drivers_autoprobe ==> exists|mid: BusRegistry|
                mid.devices@ == old(reg).devices@ && mid.drivers@ == old(reg).drivers@ && binds_only(&mid, final(reg), drv as int)
            &&& !old(reg).subsys@[k].drivers_autoprobe ==> final(reg).devices@ == old(reg).devices@
                && final(reg).drivers@ == old(reg).drivers@
        }),
{
    let bus = match reg.drivers[drv].bus {
        None => return Err(BusError::InvalidBus),
        Some(b) => b,
    };
    let k = match find_subsys(&reg.subsys, bus.name) {
        None => return Err(BusError::InvalidBus),
        Some(k) => k,
    };
    proof { lemma_first_bus(reg.subsys@, bus.name@, 0); }
    reg.subsys[k].drivers.push(drv);
    proof {
        assert forall|i: int, j: int| 0 <= i < reg.subsys@.len() && 0 <= j < reg.subsys@[i].devices@.len()
            implies #[trigger] reg.subsys@[i].devices@[j] < reg.devices@.len() by {
            if i != k { assert(reg.subsys@[i] == old(reg).subsys@[i]); }
            else { assert(reg.subsys@[i].devices@ == old(reg).subsys@[i].devices@); }
        }
        assert forall|i: int, j: int| 0 <= i < reg.subsys@.len() && 0 <= j < reg.subsys@[i].drivers@.len()
            implies #[trigger] reg.subsys@[i].drivers@[j] < reg.drivers@.len() by {
            if i != k { assert(reg.subsys@[i] == old(reg).subsys@[i]); }
            else if j < old(reg).subsys@[i].drivers@.len() { assert(reg.subsys@[i].drivers@[j] == old(reg).subsys@[i].drivers@[j]); }
        }
        lemma_first_bus(reg.subsys@, bus.name@, 0);
        assert forall|j: int| 0 <= j < k implies reg.subsys@[j].bus.name@ != bus.name@ by {
            assert(reg.subsys@[j] == old(reg).subsys@[j]);
        }
        assert(first_bus(reg.subsys@, bus.name@, 0) == Some(k as int));
    }
    if reg.subsys[k].drivers_autoprobe {
        let ghost mid = *reg;
        let res = driver_attach(reg, drv, cb);
        match res {
            Err(e) => return Err(e),
            Ok(()) => {},
        }
    }
    Ok(())
}

/// Takes driver `drv` off its bus's list and unbinds the bus's devices
/// bound to it (running its remove routine, if it has one, for each).
/// `InvalidBus` when the driver has no bus or its bus is not registered.
pub fn bus_remove_driver<C: BusCallbacks>(reg: &mut BusRegistry, drv: usize, cb: &C) -> (r: Result<(), BusError>)
    requires
        registry_wf(old(reg)),
        drv < old(reg).drivers@.len(),
    ensures
        registry_wf(final(reg)),
        final(reg).drivers@ == old(reg).drivers@,
        r is Err <==> bus_of_driver(old(reg), drv as int) is None,
        r is Err ==> r == Err::<(), BusError>(BusError::InvalidBus) && final(reg).subsys@ == old(reg).subsys@
            && final(reg).devices@ == old(reg).devices@,
        r is Ok ==> ({
            let k = bus_of_driver(old(reg), drv as int).unwrap();
            let listed = old(reg).subsys@[k].devices@;
            &&& final(reg).subsys@.len() == old(reg).subsys@.len()
            &&& forall|i: int| 0 <= i < old(reg).subsys@.len() && i != k ==> final(reg).subsys@[i] == old(reg).subsys@[i]
            &&& same_but_drivers(old(reg).subsys@[k], final(reg).subsys@[k])
            &&& final(reg).subsys@[k].drivers@ == without(old(reg).subsys@[k].drivers@, drv)
            &&& final(reg).devices@.len() == old(reg).devices@.len()
            &&& forall|d: int| 0 <= d < old(reg).devices@.len() ==> #[trigger] final(reg).devices@[d] == (
                if listed.contains(d as usize) && old(reg).devices@[d].driver == Some(drv) {
                    with_driver(old(reg).devices@[d], None)
                } else {
                    old(reg).devices@[d]
                })
        }),
{
    let bus = match reg.drivers[drv].bus {
        None => return Err(BusError::InvalidBus),
        Some(b) => b,
    };
    let k = match find_subsys(&reg.subsys, bus.name) {
        None => return Err(BusError::InvalidBus),
        Some(k) => k,
    };
    proof { lemma_first_bus(reg.subsys@, bus.name@, 0); }
    let kept = remove_all(&reg.subsys[k].drivers, drv);
    proof { lemma_without(reg.subsys@[k as int].drivers@, drv); }
    reg.subsys[k].drivers = kept;
    proof {
        assert forall|i: int, j: int| 0 <= i < reg.subsys@.len() && 0 <= j < reg.subsys@[i].devices@.len()
            implies #[trigger] reg.subsys@[i].devices@[j] < reg.devices@.len() by {
            if i != k { assert(reg.subsys@[i] == old(reg).subsys@[i]); }
            else { assert(reg.subsys@[i].devices@ == old(reg).subsys@[i].devices@); }
        }
        assert forall|i: int, j: int| 0 <= i < reg.subsys@.len() && 0 <= j < reg.subsys@[i].drivers@.len()
            implies #[trigger] reg.subsys@[i].drivers@[j] < reg.drivers@.len() by {
            if i != k { assert(reg.subsys@[i] == old(reg).subsys@[i]); }
            else {
                let y = reg.subsys@[i].drivers@[j];
                assert(old(reg).subsys@[i].drivers@.contains(y));
            }
        }
    }
    let ghost listed = old(reg).subsys@[k as int].devices@;
    let ghost sub_after = reg.subsys@;
    let devices = copy_indices(&reg.subsys[k].devices);
    let mut i: usize = 0;
    while i < devices.len()
        invariant
            registry_wf(reg),
            reg.subsys@ == sub_after,
            drv < reg.drivers@.len(),
            reg.drivers@ == old(reg).drivers@,
            devices@ == listed,
            forall|x: int| 0 <= x < listed.len() ==> #[trigger] listed[x] < reg.devices@.len(),
            reg.devices@.len() == old(reg).devices@.len(),
            i <= devices@.len(),
            forall|d: int| 0 <= d < old(reg).devices@.len() ==> #[trigger] reg.devices@[d] == (
                if listed.subrange(0, i as int).contains(d as usize) && old(reg).devices@[d].driver == Some(drv) {
                    with_driver(old(reg).devices@[d], None)
                } else {
                    old(reg).devices@[d]
                }),
        decreases devices.len() - i,
    {
        let d = devices[i];
        assert(listed[i as int] == d);
        let ghost before = reg.devices@;
        if reg.devices[d].driver == Some(drv) {
            if reg.drivers[drv].has_remove {
                cb.driver_remove(&reg.drivers[drv], &reg.devices[d]);
            }
            reg.devices[d].driver = None;
        }
        let _n = reg.devices.len();
        proof {
            assert forall|x: int| 0 <= x < old(reg).devices@.len() implies #[trigger] reg.devices@[x] == (
                if listed.subrange(0, i as int + 1).contains(x as usize) && old(reg).devices@[x].driver == Some(drv) {
                    with_driver(old(reg).devices@[x], None)
                } else {
                    old(reg).devices@[x]
                }) by {
                let pre = listed.subrange(0, i as int);
                let post = listed.subrange(0, i as int + 1);
                assert(post =~= pre.push(d));
                assert(post[i as int] == d);
                if x == d as int {
                    assert(post.contains(d));
                } else {
                    assert(reg.devices@[x] == before[x]);
                    assert((x as usize) != d);
                    assert(post.contains(x as usize) == pre.contains(x as usize)) by {
                        if post.contains(x as usize) {
                            let t = choose|t: int| 0 <= t < post.len() && post[t] == x as usize;
                            assert(t < i);
                            assert(pre[t] == x as usize);
                        }
                    }
                }
            }
            assert forall|dd: int| 0 <= dd < reg.devices@.len() && (#[trigger] reg.devices@[dd]).driver is Some
                implies reg.devices@[dd].driver.unwrap() < reg.drivers@.len() by {
                assert(reg.devices@[dd] == before[dd] || reg.devices@[dd].driver is None);
            }
        }
        i = i + 1;
    }
    proof {
        assert(listed.subrange(0, listed.len() as int) =~= listed);
    }
    Ok(())
}

/// Shows each device of the bus named like `bus`, in list order, to `v`;
/// stops at the first error. `InvalidBus` when that bus is not registered.
pub fn bus_for_each_dev<V: DeviceVisitor>(reg: &BusRegistry, bus: &BusType, v: &mut V) -> (r: Result<(), BusError>)
    requires
        registry_wf(reg),
    ensures
        first_bus(reg.subsys@, bus.name@, 0) is None ==> r == Err::<(), BusError>(BusError::InvalidBus),
        first_bus(reg.subsys@, bus.name@, 0) matches Some(k) && reg.subsys@[k].devices@.len() == 0 ==> r is Ok,
{
    let k = match find_subsys(&reg.subsys, bus.name) {
        None => return Err(BusError::InvalidBus),
        Some(k) => k,
    };
    proof { lemma_first_bus(reg.subsys@, bus.name@, 0); }
    let devices = copy_indices(&reg.subsys[k].devices);
    let mut i: usize = 0;
    while i < devices.len()
        invariant
            registry_wf(reg),
            k < reg.subsys@.len(),
            devices@ == reg.subsys@[k as int].devices@,
            first_bus(reg.subsys@, bus.name@, 0) == Some(k as int),
            i <= devices@.len(),
        decreases devices.len() - i,
    {
        let d = devices[i];
        assert(reg.subsys@[k as int].devices@[i as int] == d);
        match v.visit(&reg.devices[d]) {
            Err(e) => return Err(e),
            Ok(()) => {},
        }
        i = i + 1;
    }
    Ok(())
}

/// Shows each driver of the bus named like `bus`, in list order, to `v`;
/// stops at the first error. `InvalidBus` when that bus is not registered.
pub fn bus_for_each_drv<V: DriverVisitor>(reg: &BusRegistry, bus: &BusType, v: &mut V) -> (r: Result<(), BusError>)
    requires
        registry_wf(reg),
    ensures
        first_bus(reg.subsys@, bus.name@, 0) is None ==> r == Err::<(), BusError>(BusError::InvalidBus),
        first_bus(reg.subsys@, bus.name@, 0) matches Some(k) && reg.subsys@[k].drivers@.len() == 0 ==> r is Ok,
{
    let k = match find_subsys(&reg.subsys, bus.name) {
        None => return Err(BusError::InvalidBus),
        Some(k) => k,
    };
    proof { lemma_first_bus(reg.subsys@, bus.name@, 0); }
    let drivers = copy_indices(&reg.subsys[k].drivers);
    let mut i: usize = 0;
    while i < drivers.len()
        invariant
            registry_wf(reg),
            k < reg.subsys@.len(),
            drivers@ == reg.subsys@[k as int].drivers@,
            first_bus(reg.subsys@, bus.name@, 0) == Some(k as int),
            i <= drivers@.len(),
        decreases drivers.len() - i,
    {
        let d = drivers[i];
        assert(reg.subsys@[k as int].drivers@[i as int] == d);
        match v.visit(&reg.drivers[d]) {
            Err(e) => return Err(e),
            Ok(()) => {},
        }
        i = i + 1;
    }
    Ok(())
}

} // verus!
