//! Matching devices to drivers by identity tables: wildcard and class-mask
//! matching, drivers registered later picking up waiting devices, and
//! removal through the matching driver.
use vstd::prelude::*;
use crate::bus::BusType;
use crate::traits::{BasicDevice, DeviceError, DeviceHandle, DeviceId};

verus! {

/// When a driver's probe runs.
#[derive(Debug, Clone, Copy, PartialEq, Eq, Structural)]
pub enum ProbeType {
    Synchronous,
    Asynchronous,
    ForceSynchronous,
}

/// Wildcard for vendor, device and subsystem fields.
pub const ID_ANY: u16 = 0xFFFF;
/// Wildcard for the class field.
pub const ID_ANY_CLASS: u32 = 0xFFFF_FFFF;

/// A device identity with subsystem and class, where fields may be
/// wildcards.
#[derive(Debug, Clone, Copy, PartialEq, Eq, Structural)]
pub struct ExtendedDeviceId {
    pub vendor: u16,
    pub device: u16,
    pub subvendor: u16,
    pub subdevice: u16,
    pub class: u32,
    pub class_mask: u32,
}

/// Two fields agree unless both are set and differ.
pub open spec fn field_ok(a: u16, b: u16) -> bool {
    a == ID_ANY || b == ID_ANY || a == b
}

/// Whether identity `a` (as a table entry) matches `b`: vendor, device and
/// subsystem fields agree (wildcards match anything), and, when both have
/// a class, the classes agree under `a`'s mask.
pub open spec fn id_matches(a: ExtendedDeviceId, b: ExtendedDeviceId) -> bool {
    &&& field_ok(a.vendor, b.vendor)
    &&& field_ok(a.device, b.device)
    &&& field_ok(a.subvendor, b.subvendor)
    &&& field_ok(a.subdevice, b.subdevice)
    &&& (a.class == ID_ANY_CLASS || b.class == ID_ANY_CLASS || (a.class & a.class_mask) == (b.class & a.class_mask))
}

/// The identity `ExtendedDeviceId::new(vendor, device)` gives.
pub open spec fn ext_id(vendor: u16, device: u16) -> ExtendedDeviceId {
    ExtendedDeviceId { vendor, device, subvendor: ID_ANY, subdevice: ID_ANY, class: ID_ANY_CLASS, class_mask: 0 }
}

/// The identity `ExtendedDeviceId::with_class(vendor, device, class, mask)`
/// gives.
pub open spec fn ext_class_id(vendor: u16, device: u16, class: u32, class_mask: u32) -> ExtendedDeviceId {
    ExtendedDeviceId { vendor, device, subvendor: ID_ANY, subdevice: ID_ANY, class, class_mask }
}

impl ExtendedDeviceId {
    /// Vendor and device; subsystem and class are wildcards.
    pub fn new(vendor: u16, device: u16) -> (i: ExtendedDeviceId)
        ensures
            i == (ExtendedDeviceId { vendor, device, subvendor: ID_ANY, subdevice: ID_ANY, class: ID_ANY_CLASS, class_mask: 0 }),
    {
        ExtendedDeviceId { vendor, device, subvendor: ID_ANY, subdevice: ID_ANY, class: ID_ANY_CLASS, class_mask: 0 }
    }

    /// Vendor, device and subsystem; class is a wildcard.
    pub fn with_subsystem(vendor: u16, device: u16, subvendor: u16, subdevice: u16) -> (i: ExtendedDeviceId)
        ensures
            i == (ExtendedDeviceId { vendor, device, subvendor, subdevice, class: ID_ANY_CLASS, class_mask: 0 }),
    {
        ExtendedDeviceId { vendor, device, subvendor, subdevice, class: ID_ANY_CLASS, class_mask: 0 }
    }

    /// Vendor, device and class under a mask; subsystem is a wildcard.
    pub fn with_class(vendor: u16, device: u16, class: u32, class_mask: u32) -> (i: ExtendedDeviceId)
        ensures
            i == (ExtendedDeviceId { vendor, device, subvendor: ID_ANY, subdevice: ID_ANY, class, class_mask }),
    {
        ExtendedDeviceId { vendor, device, subvendor: ID_ANY, subdevice: ID_ANY, class, class_mask }
    }

    /// Whether this identity matches `other` (see `id_matches`).
    pub fn matches(&self, other: &ExtendedDeviceId) -> (b: bool)
        ensures
            b == id_matches(*self, *other),
    {
        if self.vendor != ID_ANY && other.vendor != ID_ANY {
            if self.vendor != other.vendor {
                return false;
            }
        }
        if self.device != ID_ANY && other.device != ID_ANY {
            if self.device != other.device {
                return false;
            }
        }
        if self.subvendor != ID_ANY && other.subvendor != ID_ANY {
            if self.subvendor != other.subvendor {
                return false;
            }
        }
        if self.subdevice != ID_ANY && other.subdevice != ID_ANY {
            if self.subdevice != other.subdevice {
                return false;
            }
        }
        if self.class != ID_ANY_CLASS && other.class != ID_ANY_CLASS {
            if (self.class & self.class_mask) != (other.class & self.class_mask) {
                return false;
            }
        }
        true
    }

    /// Vendor and device as a plain identity (revision 0).
    pub fn to_simple(&self) -> (d: DeviceId)
        ensures
            d == (DeviceId { vendor: self.vendor, product: self.device, revision: 0 }),
    {
        DeviceId::new(self.vendor, self.device, 0)
    }
}

/// A driver: name, bus, probe timing and identity table. Its probe brings
/// a device up (`init`), its remove takes it down (`shutdown`).
pub struct Driver {
    pub name: &'static str,
    pub bus_type: BusType,
    pub probe_type: ProbeType,
    pub id_table: Vec<ExtendedDeviceId>,
}

/// Whether some entry of `table` matches `id`.
pub open spec fn table_matches(table: Seq<ExtendedDeviceId>, id: ExtendedDeviceId) -> bool {
    exists|i: int| 0 <= i < table.len() && id_matches(#[trigger] table[i], id)
}

impl Driver {
    /// A synchronous driver `name` on `bus_type` with an empty table.
    pub fn new(name: &'static str, bus_type: BusType) -> (d: Driver)
        ensures
            d.name == name && d.bus_type == bus_type && d.probe_type == ProbeType::Synchronous && d.id_table@.len() == 0,
    {
        Driver { name, bus_type, probe_type: ProbeType::Synchronous, id_table: Vec::new() }
    }

    /// The driver with identity table `ids`.
    pub fn with_ids(self, ids: Vec<ExtendedDeviceId>) -> (d: Driver)
        ensures
            d.id_table@ == ids@ && d.name == self.name && d.bus_type == self.bus_type && d.probe_type == self.probe_type,
    {
        let mut d = self;
        d.id_table = ids;
        d
    }

    /// The driver with probe timing `probe_type`.
    pub fn with_probe_type(self, probe_type: ProbeType) -> (d: Driver)
        ensures
            d.probe_type == probe_type && d.id_table@ == self.id_table@ && d.name == self.name && d.bus_type == self.bus_type,
    {
        let mut d = self;
        d.probe_type = probe_type;
        d
    }

    /// Whether an entry of the table matches `device_id`.
    pub fn matches(&self, device_id: &ExtendedDeviceId) -> (b: bool)
        ensures
            b == table_matches(self.id_table@, *device_id),
    {
        let mut i: usize = 0;
        while i < self.id_table.len()
            invariant
                i <= self.id_table@.len(),
                forall|j: int| 0 <= j < i ==> !id_matches(#[trigger] self.id_table@[j], *device_id),
            decreases self.id_table.len() - i,
        {
            if self.id_table[i].matches(device_id) {
                return true;
            }
            i = i + 1;
        }
        false
    }
}

/// Drivers in registration order, and devices waiting for a driver.
pub struct DriverManager {
    pub drivers: Vec<Driver>,
    pub pending_devices: Vec<(ExtendedDeviceId, DeviceHandle)>,
}

impl DriverManager {
    /// No drivers, no waiting devices.
    pub fn new() -> (m: DriverManager)
        ensures
            m.drivers@.len() == 0 && m.pending_devices@.len() == 0,
    {
        DriverManager { drivers: Vec::new(), pending_devices: Vec::new() }
    }
}


/// Position of the first driver whose table matches `id`.
pub open spec fn first_driver(drivers: Seq<Driver>, id: ExtendedDeviceId, i: int) -> Option<int>
    decreases drivers.len() - i,
{
    if i < 0 || i >= drivers.len() {
        None
    } else if table_matches(drivers[i].id_table@, id) {
        Some(i)
    } else {
        first_driver(drivers, id, i + 1)
    }
}

proof fn lemma_first_driver(drivers: Seq<Driver>, id: ExtendedDeviceId, i: int)
    requires
        0 <= i,
    ensures
        first_driver(drivers, id, i) matches Some(k) ==> i <= k < drivers.len(),
    decreases drivers.len() - i,
{
    if 0 <= i < drivers.len() && !table_matches(drivers[i].id_table@, id) {
        lemma_first_driver(drivers, id, i + 1);
    }
}

fn find_driver(drivers: &Vec<Driver>, id: &ExtendedDeviceId) -> (r: Option<usize>)
    ensures
        r matches Some(k) ==> first_driver(drivers@, *id, 0) == Some(k as int) && k < drivers@.len(),
        r is None ==> first_driver(drivers@, *id, 0) is None,
{
    proof { lemma_first_driver(drivers@, *id, 0); }
    let mut i: usize = 0;
    while i < drivers.len()
        invariant
            i <= drivers@.len(),
            first_driver(drivers@, *id, 0) == first_driver(drivers@, *id, i as int),
        decreases drivers.len() - i,
    {
        if drivers[i].matches(id) {
            return Some(i);
        }
        i = i + 1;
    }
    None
}

/// Every waiting device is a position of the device table.
pub open spec fn pending_ok(m: &DriverManager, n: nat) -> bool {
    forall|i: int| 0 <= i < m.pending_devices@.len() ==> (#[trigger] m.pending_devices@[i]).1 < n
}

impl DriverManager {
    /// Probes device `device` with a driver: brings it up.
    fn probe_device<D: BasicDevice>(&self, driver: &Driver, device: &mut D) -> (r: Result<(), DeviceError>) {
        match driver.probe_type {
            ProbeType::Synchronous | ProbeType::ForceSynchronous => {
                device.init()?;
            },
            ProbeType::Asynchronous => {
                device.init()?;
            },
        }
        Ok(())
    }

    /// Adds device `device` (position in `devs`) with identity `device_id`:
    /// the first driver that matches probes it (its result returned);
    /// without one it waits.
    pub fn add_device<D: BasicDevice>(&mut self, device_id: ExtendedDeviceId, device: DeviceHandle, devs: &mut Vec<D>) -> (r: Result<(), DeviceError>)
        requires
            device < old(devs)@.len(),
        ensures
            final(devs)@.len() == old(devs)@.len(),
            final(self).drivers@ == old(self).drivers@,
            first_driver(old(self).drivers@, device_id, 0) is Some ==> final(self).pending_devices@ == old(self).pending_devices@,
            first_driver(old(self).drivers@, device_id, 0) is None ==> r is Ok
                && final(self).pending_devices@ == old(self).pending_devices@.push((device_id, device))
                && final(devs)@ == old(devs)@,
    {
        match find_driver(&self.drivers, &device_id) {
            Some(k) => {
                let r = self.probe_device(&self.drivers[k], &mut devs[device]);
                r
            },
            None => {
                self.pending_devices.push((device_id, device));
                Ok(())
            },
        }
    }

    /// Registers a driver; waiting devices it matches are probed with it (in
    /// waiting order, results passed over) and stop waiting.
    pub fn register_driver<D: BasicDevice>(&mut self, driver: Driver, devs: &mut Vec<D>) -> (r: Result<(), DeviceError>)
        requires
            pending_ok(old(self), old(devs)@.len()),
        ensures
            r is Ok,
            final(devs)@.len() == old(devs)@.len(),
            final(self).drivers@.len() == old(self).drivers@.len() + 1,
            final(self).drivers@.drop_last() == old(self).drivers@,
            final(self).drivers@.last() == driver,
            final(self).pending_devices@ == old(self).pending_devices@.filter(
                |p: (ExtendedDeviceId, DeviceHandle)| !table_matches(driver.id_table@, p.0)),
            pending_ok(final(self), final(devs)@.len()),
    {
        let ghost table = driver.id_table@;
        let ghost name = driver.name;
        self.drivers.push(driver);
        let k = self.drivers.len() - 1;
        proof { assert(self.drivers@.drop_last() =~= old(self).drivers@); }
        self.match_pending_devices(k, devs);
        Ok(())
    }

    /// Probes the waiting devices that driver `k` matches and stops them
    /// waiting.
    fn match_pending_devices<D: BasicDevice>(&mut self, k: usize, devs: &mut Vec<D>)
        requires
            k < old(self).drivers@.len(),
            pending_ok(old(self), old(devs)@.len()),
        ensures
            final(devs)@.len() == old(devs)@.len(),
            final(self).drivers@ == old(self).drivers@,
            final(self).pending_devices@ == old(self).pending_devices@.filter(
                |p: (ExtendedDeviceId, DeviceHandle)| !table_matches(old(self).drivers@[k as int].id_table@, p.0)),
            pending_ok(final(self), final(devs)@.len()),
    {
        let ghost orig = self.pending_devices@;
        let ghost p = |q: (ExtendedDeviceId, DeviceHandle)| !table_matches(old(self).drivers@[k as int].id_table@, q.0);
        let mut i: usize = 0;
        let ghost mut j: int = 0;
        while i < self.pending_devices.len()
            invariant
                k < self.drivers@.len(),
                self.drivers@ == old(self).drivers@,
                devs@.len() == old(devs)@.len(),
                0 <= i <= j <= orig.len(),
                orig == old(self).pending_devices@,
                forall|x: int| 0 <= x < orig.len() ==> (#[trigger] orig[x]).1 < devs@.len(),
                forall|x: int| 0 <= x < self.pending_devices@.len() ==> (#[trigger] self.pending_devices@[x]).1 < devs@.len(),
                self.pending_devices@.len() == i + (orig.len() - j),
                self.pending_devices@.subrange(0, i as int) == orig.subrange(0, j).filter(p),
                self.pending_devices@.subrange(i as int, self.pending_devices@.len() as int) == orig.subrange(j, orig.len() as int),
                p == (|q: (ExtendedDeviceId, DeviceHandle)| !table_matches(old(self).drivers@[k as int].id_table@, q.0)),
            decreases self.pending_devices.len() - i,
        {
            let ghost before = self.pending_devices@;
            let ghost tl = before.subrange(i as int, before.len() as int);
            let ghost ot = orig.subrange(j, orig.len() as int);
            assert(before[i as int] == orig[j]) by {
                assert(tl[0] == ot[0]);
            }
            proof {
                reveal(Seq::filter);
                assert(orig.subrange(0, j + 1).drop_last() =~= orig.subrange(0, j));
                assert(orig.subrange(0, j + 1).last() == orig[j]);
            }
            let (id, handle) = self.pending_devices[i];
            if self.drivers[k].matches(&id) {
                let _ = self.probe_device(&self.drivers[k], &mut devs[handle]);
                let _ = self.pending_devices.remove(i);
                proof {
                    assert forall|x: int| 0 <= x < self.pending_devices@.len() implies (#[trigger] self.pending_devices@[x]).1 < devs@.len() by {
                        if x < i { assert(self.pending_devices@[x] == before[x]); } else { assert(self.pending_devices@[x] == before[x + 1]); }
                    }
                    assert(self.pending_devices@.subrange(0, i as int) =~= before.subrange(0, i as int));
                    assert forall|x: int| 0 <= x < self.pending_devices@.len() - i implies
                        #[trigger] self.pending_devices@.subrange(i as int, self.pending_devices@.len() as int)[x] == orig.subrange(j + 1, orig.len() as int)[x] by {
                        assert(tl[x + 1] == ot[x + 1]);
                    }
                    assert(self.pending_devices@.subrange(i as int, self.pending_devices@.len() as int) =~= orig.subrange(j + 1, orig.len() as int));
                    j = j + 1;
                }
            } else {
                proof {
                    assert(before.subrange(0, i as int + 1) =~= before.subrange(0, i as int).push(orig[j]));
                    assert forall|x: int| 0 <= x < before.len() - i - 1 implies
                        #[trigger] before.subrange(i as int + 1, before.len() as int)[x] == orig.subrange(j + 1, orig.len() as int)[x] by {
                        assert(tl[x + 1] == ot[x + 1]);
                    }
                    assert(before.subrange(i as int + 1, before.len() as int) =~= orig.subrange(j + 1, orig.len() as int));
                }
                i = i + 1;
                proof { j = j + 1; }
            }
        }
        proof {
            assert(orig.subrange(0, j) =~= orig);
            assert(self.pending_devices@ =~= self.pending_devices@.subrange(0, i as int));
        }
    }

    /// Unregisters every driver named `name` (order of the others kept).
    pub fn unregister_driver(&mut self, name: &str) -> (r: Result<(), DeviceError>)
        ensures
            r is Ok,
            final(self).drivers@ == old(self).drivers@.filter(|d: Driver| d.name@ != name@),
            final(self).pending_devices@ == old(self).pending_devices@,
    {
        let ghost orig = self.drivers@;
        let ghost p = |d: Driver| d.name@ != name@;
        let mut i: usize = 0;
        let ghost mut j: int = 0;
        while i < self.drivers.len()
            invariant
                0 <= i <= j <= orig.len(),
                self.drivers@.len() == i + (orig.len() - j),
                self.drivers@.subrange(0, i as int) == orig.subrange(0, j).filter(p),
                self.drivers@.subrange(i as int, self.drivers@.len() as int) == orig.subrange(j, orig.len() as int),
                p == (|d: Driver| d.name@ != name@),
                self.pending_devices@ == old(self).pending_devices@,
            decreases self.drivers.len() - i,
        {
            let ghost before = self.drivers@;
            let ghost tl = before.subrange(i as int, before.len() as int);
            let ghost ot = orig.subrange(j, orig.len() as int);
            assert(before[i as int] == orig[j]) by {
                assert(tl[0] == ot[0]);
            }
            proof {
                reveal(Seq::filter);
                assert(orig.subrange(0, j + 1).drop_last() =~= orig.subrange(0, j));
                assert(orig.subrange(0, j + 1).last() == orig[j]);
            }
            if crate::text::str_eq(self.drivers[i].name, name) {
                let _ = self.drivers.remove(i);
                proof {
                    assert(self.drivers@.subrange(0, i as int) =~= before.subrange(0, i as int));
                    assert forall|x: int| 0 <= x < self.drivers@.len() - i implies
                        #[trigger] self.drivers@.subrange(i as int, self.drivers@.len() as int)[x] == orig.subrange(j + 1, orig.len() as int)[x] by {
                        assert(tl[x + 1] == ot[x + 1]);
                    }
                    assert(self.drivers@.subrange(i as int, self.drivers@.len() as int) =~= orig.subrange(j + 1, orig.len() as int));
                    j = j + 1;
                }
            } else {
                proof {
                    assert(before.subrange(0, i as int + 1) =~= before.subrange(0, i as int).push(orig[j]));
                    assert forall|x: int| 0 <= x < before.len() - i - 1 implies
                        #[trigger] before.subrange(i as int + 1, before.len() as int)[x] == orig.subrange(j + 1, orig.len() as int)[x] by {
                        assert(tl[x + 1] == ot[x + 1]);
                    }
                    assert(before.subrange(i as int + 1, before.len() as int) =~= orig.subrange(j + 1, orig.len() as int));
                }
                i = i + 1;
                proof { j = j + 1; }
            }
        }
        proof {
            assert(orig.subrange(0, j) =~= orig);
            assert(self.drivers@ =~= self.drivers@.subrange(0, i as int));
        }
        Ok(())
    }

    /// Removes device `device`: the first driver matching its vendor and
    /// device takes it down (its result returned); `NotSupported` when no
    /// driver matches.
    pub fn remove_device<D: BasicDevice>(&self, device: DeviceHandle, devs: &mut Vec<D>) -> (r: Result<(), DeviceError>)
        requires
            device < old(devs)@.len(),
        ensures
            final(devs)@.len() == old(devs)@.len(),
            forall|k: int| 0 <= k < old(devs)@.len() && k != device ==> #[trigger] final(devs)@[k] == old(devs)@[k],
    {
        let device_id = devs[device].device_id();
        let ext_id = ExtendedDeviceId::new(device_id.vendor, device_id.product);
        match find_driver(&self.drivers, &ext_id) {
            Some(_) => devs[device].shutdown(),
            None => Err(DeviceError::NotSupported),
        }
    }

    /// Names of the drivers, in registration order.
    pub fn list_drivers(&self) -> (names: Vec<String>)
        ensures
            names@.len() == self.drivers@.len(),
            forall|i: int| 0 <= i < names@.len() ==> (#[trigger] names@[i])@ == self.drivers@[i].name@,
    {
        let mut names: Vec<String> = Vec::new();
        let mut i: usize = 0;
        while i < self.drivers.len()
            invariant
                i <= self.drivers@.len(),
                names@.len() == i,
                forall|k: int| 0 <= k < i ==> (#[trigger] names@[k])@ == self.drivers@[k].name@,
            decreases self.drivers.len() - i,
        {
            names.push(self.drivers[i].name.to_owned());
            i = i + 1;
        }
        names
    }

    /// Number of drivers.
    pub fn driver_count(&self) -> (n: usize)
        ensures
            n == self.drivers@.len(),
    {
        self.drivers.len()
    }

    /// Number of waiting devices.
    pub fn pending_count(&self) -> (n: usize)
        ensures
            n == self.pending_devices@.len(),
    {
        self.pending_devices.len()
    }
}

} // verus!
