//! Drivers of the driver core: registration with a bus, and the devices
//! that a driver has been bound to.
use vstd::prelude::*;
use crate::base::bus::{
    BusCallbacks, BusRegistry, BusType, DeviceDriver, binds_only, bus_add_driver, bus_of_driver, bus_remove_driver,
    first_bus, find_subsys, registry_wf, without, remove_all,
};
use crate::base::device::DeviceCore;

verus! {

/// A driver: name, bus, which hooks it has, and the devices bound to it
/// (as positions in the device table its caller keeps).
pub struct DriverCore {
    pub name: &'static str,
    pub bus: Option<BusType>,
    pub has_probe: bool,
    pub has_remove: bool,
    pub has_shutdown: bool,
    pub devices: Vec<usize>,
}

/// Driver errors.
#[derive(Debug, Clone, Copy, PartialEq, Eq, Structural)]
pub enum DriverError {
    InvalidDriver,
    InvalidBus,
    AlreadyRegistered,
    NotRegistered,
    ProbeFailed,
}

/// A driver's remove routine.
pub trait DriverHooks {
    fn remove(&self, drv: &DriverCore, dev: &DeviceCore) -> Result<(), DriverError>;
}

/// Something shown each device of a driver in turn; an error stops the walk.
pub trait DeviceCoreVisitor {
    fn visit(&mut self, dev: &DeviceCore) -> Result<(), DriverError>;
}

/// A test on devices.
pub trait DeviceMatcher {
    fn matches(&mut self, dev: &DeviceCore) -> bool;
}

/// `b` is `a` with only its device list changed.
pub open spec fn same_core_but_devices(a: &DriverCore, b: &DriverCore) -> bool {
    a.name == b.name && a.bus == b.bus && a.has_probe == b.has_probe && a.has_remove == b.has_remove
        && a.has_shutdown == b.has_shutdown
}

impl DriverCore {
    /// A driver named `name`, on no bus, without hooks or devices.
    pub fn new(name: &'static str) -> (d: DriverCore)
        ensures
            d.name == name,
            d.bus is None,
            !d.has_probe && !d.has_remove && !d.has_shutdown,
            d.devices@.len() == 0,
    {
        DriverCore { name, bus: None, has_probe: false, has_remove: false, has_shutdown: false, devices: Vec::new() }
    }

    /// The driver's name.
    pub fn name(&self) -> (n: &'static str)
        ensures
            n == self.name,
    {
        self.name
    }

    /// Records that device `dev` is bound to this driver.
    pub fn add_device(&mut self, dev: usize)
        ensures
            final(self).devices@ == old(self).devices@.push(dev),
            same_core_but_devices(old(self), final(self)),
    {
        self.devices.push(dev);
    }

    /// Forgets every binding to device `dev`.
    pub fn remove_device(&mut self, dev: usize)
        ensures
            final(self).devices@ == without(old(self).devices@, dev),
            same_core_but_devices(old(self), final(self)),
    {
        self.devices = remove_all(&self.devices, dev);
    }

    /// The bound devices, in binding order.
    pub fn devices(&self) -> (s: &[usize])
        ensures
            s@ == self.devices@,
    {
        self.devices.as_slice()
    }

    /// Number of bound devices.
    pub fn num_devices(&self) -> (n: usize)
        ensures
            n == self.devices@.len(),
    {
        self.devices.len()
    }
}

/// Registers `drv` with its bus in `reg` and returns the driver's position
/// there. `InvalidDriver` without a probe routine; `InvalidBus` without a
/// bus or when its bus is not registered. Registration offers the driver
/// the bus's free devices when the bus probes automatically.
pub fn driver_register<C: BusCallbacks>(reg: &mut BusRegistry, drv: &DriverCore, cb: &C) -> (r: Result<usize, DriverError>)
    requires
        registry_wf(old(reg)),
    ensures
        registry_wf(final(reg)),
        !drv.has_probe ==> r == Err::<usize, DriverError>(DriverError::InvalidDriver),
        drv.has_probe && (drv.bus is None || first_bus(old(reg).subsys@, drv.bus.unwrap().name@, 0) is None)
            ==> r == Err::<usize, DriverError>(DriverError::InvalidBus),
        drv.has_probe && drv.bus is Some && first_bus(old(reg).subsys@, drv.bus.unwrap().name@, 0) is Some ==> r is Ok,
        r is Err ==> final(reg).subsys@ == old(reg).subsys@ && final(reg).devices@ == old(reg).devices@
            && final(reg).drivers@ == old(reg).drivers@,
        r matches Ok(i) ==> ({
            let k = first_bus(old(reg).subsys@, drv.bus.unwrap().name@, 0).unwrap();
            &&& i == old(reg).drivers@.len()
            &&& final(reg).drivers@.len() == i + 1
            &&& final(reg).drivers@.subrange(0, i as int) == old(reg).drivers@
            &&& final(reg).drivers@[i as int].name == drv.name
            &&& final(reg).drivers@[i as int].bus == drv.bus
            &&& final(reg).subsys@[k].drivers@ == old(reg).subsys@[k].drivers@.push(i)
        }),
{
    if !drv.has_probe {
        return Err(DriverError::InvalidDriver);
    }
    let bus = match drv.bus {
        None => return Err(DriverError::InvalidBus),
        Some(b) => b,
    };
    if find_subsys(&reg.subsys, bus.name).is_none() {
        return Err(DriverError::InvalidBus);
    }
    let d = DeviceDriver {
        name: drv.name,
        bus: drv.bus,
        has_probe: drv.has_probe,
        has_remove: drv.has_remove,
        devices: Vec::new(),
    };
    let i = reg.add_driver_object(d);
    let ghost mid = *reg;
    assert(reg.drivers@[i as int].bus == drv.bus);
    match bus_add_driver(reg, i, cb) {
        Err(_) => {
            proof { assert(false); }
            Err(DriverError::AlreadyRegistered)
        },
        Ok(()) => {
            proof {
                let k = first_bus(old(reg).subsys@, drv.bus.unwrap().name@, 0).unwrap();
                assert(final(reg).drivers@.len() == mid.drivers@.len());
                assert(forall|x: int| 0 <= x < i ==> reg.drivers@[x] == mid.drivers@[x]);
                assert(reg.drivers@.subrange(0, i as int) =~= old(reg).drivers@);
            }
            Ok(i)
        },
    }
}


/// Takes the driver at position `drv` off its bus and unbinds its devices.
/// `InvalidBus` when it has no bus; `NotRegistered` when its bus is not
/// registered.
pub fn driver_unregister<C: BusCallbacks>(reg: &mut BusRegistry, drv: usize, cb: &C) -> (r: Result<(), DriverError>)
    requires
        registry_wf(old(reg)),
        drv < old(reg).drivers@.len(),
    ensures
        registry_wf(final(reg)),
        final(reg).drivers@ == old(reg).drivers@,
        old(reg).drivers@[drv as int].bus is None ==> r == Err::<(), DriverError>(DriverError::InvalidBus),
        old(reg).drivers@[drv as int].bus is Some && bus_of_driver(old(reg), drv as int) is None
            ==> r == Err::<(), DriverError>(DriverError::NotRegistered),
        r is Ok <==> bus_of_driver(old(reg), drv as int) is Some,
        r is Err ==> final(reg).subsys@ == old(reg).subsys@ && final(reg).devices@ == old(reg).devices@,
{
    if reg.drivers[drv].bus.is_none() {
        return Err(DriverError::InvalidBus);
    }
    match bus_remove_driver(reg, drv, cb) {
        Err(_) => Err(DriverError::NotRegistered),
        Ok(()) => Ok(()),
    }
}

/// Shows each device bound to `drv` (positions into `devs`), in binding
/// order, to `v`; stops at the first error.
pub fn driver_for_each_device<V: DeviceCoreVisitor>(drv: &DriverCore, devs: &[DeviceCore], v: &mut V) -> (r: Result<(), DriverError>)
    requires
        forall|j: int| 0 <= j < drv.devices@.len() ==> #[trigger] drv.devices@[j] < devs@.len(),
    ensures
        drv.devices@.len() == 0 ==> r is Ok,
{
    let mut i: usize = 0;
    while i < drv.devices.len()
        invariant
            i <= drv.devices@.len(),
            forall|j: int| 0 <= j < drv.devices@.len() ==> #[trigger] drv.devices@[j] < devs@.len(),
        decreases drv.devices.len() - i,
    {
        let d = drv.devices[i];
        match v.visit(&devs[d]) {
            Err(e) => return Err(e),
            Ok(()) => {},
        }
        i = i + 1;
    }
    Ok(())
}

/// The first device bound to `drv` (in binding order) that `m` accepts.
pub fn driver_find_device<M: DeviceMatcher>(drv: &DriverCore, devs: &[DeviceCore], m: &mut M) -> (r: Option<usize>)
    requires
        forall|j: int| 0 <= j < drv.devices@.len() ==> #[trigger] drv.devices@[j] < devs@.len(),
    ensures
        r matches Some(d) ==> drv.devices@.contains(d),
        drv.devices@.len() == 0 ==> r is None,
{
    let mut i: usize = 0;
    while i < drv.devices.len()
        invariant
            i <= drv.devices@.len(),
            forall|j: int| 0 <= j < drv.devices@.len() ==> #[trigger] drv.devices@[j] < devs@.len(),
        decreases drv.devices.len() - i,
    {
        let d = drv.devices[i];
        if m.matches(&devs[d]) {
            assert(drv.devices@[i as int] == d);
            return Some(d);
        }
        i = i + 1;
    }
    None
}

/// Offers the driver at position `drv` the free devices of its bus.
/// `InvalidBus` when it has no bus; `ProbeFailed` when its bus is not
/// registered.
pub fn driver_attach<C: BusCallbacks>(reg: &mut BusRegistry, drv: usize, cb: &C) -> (r: Result<(), DriverError>)
    requires
        registry_wf(old(reg)),
        drv < old(reg).drivers@.len(),
    ensures
        registry_wf(final(reg)),
        old(reg).drivers@[drv as int].bus is None ==> r == Err::<(), DriverError>(DriverError::InvalidBus),
        old(reg).drivers@[drv as int].bus is Some && bus_of_driver(old(reg), drv as int) is None
            ==> r == Err::<(), DriverError>(DriverError::ProbeFailed),
        r is Ok <==> bus_of_driver(old(reg), drv as int) is Some,
        r is Err ==> final(reg).subsys@ == old(reg).subsys@ && final(reg).devices@ == old(reg).devices@
            && final(reg).drivers@ == old(reg).drivers@,
        r is Ok ==> binds_only(old(reg), final(reg), drv as int),
{
    if reg.drivers[drv].bus.is_none() {
        return Err(DriverError::InvalidBus);
    }
    match crate::base::bus::driver_attach(reg, drv, cb) {
        Err(_) => Err(DriverError::ProbeFailed),
        Ok(()) => Ok(()),
    }
}

/// Unbinds every device of `drv`: its remove routine (if any) runs for each,
/// in binding order, and its device list is emptied.
pub fn driver_detach<H: DriverHooks>(drv: &mut DriverCore, devs: &[DeviceCore], hooks: &H) -> (r: Result<(), DriverError>)
    requires
        forall|j: int| 0 <= j < old(drv).devices@.len() ==> #[trigger] old(drv).devices@[j] < devs@.len(),
    ensures
        r is Ok,
        final(drv).devices@.len() == 0,
        same_core_but_devices(old(drv), final(drv)),
{
    let mut i: usize = 0;
    while i < drv.devices.len()
        invariant
            i <= drv.devices@.len(),
            drv.devices@ == old(drv).devices@,
            same_core_but_devices(old(drv), drv),
            forall|j: int| 0 <= j < drv.devices@.len() ==> #[trigger] drv.devices@[j] < devs@.len(),
        decreases drv.devices.len() - i,
    {
        let d = drv.devices[i];
        if drv.has_remove {
            let _ = hooks.remove(&*drv, &devs[d]);
        }
        i = i + 1;
    }
    drv.devices.clear();
    Ok(())
}

} // verus!
