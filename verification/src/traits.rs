//! What every driver-managed device offers: identity, capabilities, power
//! states, and the life-cycle operations; streaming devices add polling.
//! Devices are kept in tables and named by position (`DeviceHandle`), and
//! the registry maps identities to them.
use vstd::prelude::*;

verus! {

/// Vendor, product and revision of a device.
#[derive(Debug, Clone, Copy, PartialEq, Eq, Structural, Default)]
pub struct DeviceId {
    pub vendor: u16,
    pub product: u16,
    pub revision: u16,
}

impl DeviceId {
    /// The identity with the given parts.
    pub fn new(vendor: u16, product: u16, revision: u16) -> (d: DeviceId)
        ensures
            d.vendor == vendor && d.product == product && d.revision == revision,
    {
        DeviceId { vendor, product, revision }
    }
}

/// What a device can do.
#[derive(Debug, Clone, Copy, PartialEq, Eq, Structural, Default)]
pub struct DeviceCapabilities {
    pub can_stream: bool,
    pub can_block_io: bool,
    pub supports_dma: bool,
    pub hot_pluggable: bool,
}

/// Device power states.
#[derive(Debug, Clone, Copy, PartialEq, Eq, Structural)]
pub enum PowerState {
    Off,
    Active,
    Idle,
    Suspend,
}

/// Device operation errors.
#[derive(Debug, Clone, Copy, PartialEq, Eq, Structural)]
pub enum DeviceError {
    NotInitialized,
    HardwareFailure,
    NotSupported,
    Busy,
    InvalidParameter,
    Timeout,
}

/// Result of a device operation.
pub type DeviceResult<T> = Result<T, DeviceError>;

/// The life-cycle of a driver-managed device.
pub trait BasicDevice {
    fn init(&mut self) -> Result<(), DeviceError>;

    fn shutdown(&mut self) -> Result<(), DeviceError>;

    fn power_save(&mut self, state: PowerState) -> Result<(), DeviceError>;

    fn device_id(&self) -> DeviceId;

    fn capabilities(&self) -> DeviceCapabilities;

    fn name(&self) -> &str;
}

/// A device that delivers samples while streaming.
pub trait Streamable {
    type Data;

    /// The next sample, or `None` while not streaming.
    fn poll(&mut self) -> Result<Option<Self::Data>, DeviceError>;

    fn start_stream(&mut self) -> Result<(), DeviceError>;

    fn stop_stream(&mut self) -> Result<(), DeviceError>;

    fn sample_rate(&self) -> u32;
}

/// A device's position in the table its owner keeps.
pub type DeviceHandle = usize;

/// Registry errors.
#[derive(Debug, Clone, Copy, PartialEq, Eq, Structural)]
pub enum RegistryError {
    AlreadyRegistered,
    NotFound,
}

/// Identities of registered devices and where the devices are.
pub struct DeviceRegistry {
    pub entries: Vec<(DeviceId, DeviceHandle)>,
}

/// Identities in registry entries.
pub open spec fn registered_ids(e: Seq<(DeviceId, DeviceHandle)>) -> Seq<DeviceId> {
    e.map_values(|x: (DeviceId, DeviceHandle)| x.0)
}

/// The handle of the first entry (from `i` on) registered under `id`.
pub open spec fn first_handle(e: Seq<(DeviceId, DeviceHandle)>, id: DeviceId, i: int) -> Option<DeviceHandle>
    decreases e.len() - i,
{
    if i < 0 || i >= e.len() {
        None
    } else if e[i].0 == id {
        Some(e[i].1)
    } else {
        first_handle(e, id, i + 1)
    }
}

impl DeviceRegistry {
    /// An empty registry.
    pub fn new() -> (r: DeviceRegistry)
        ensures
            r.entries@.len() == 0,
    {
        DeviceRegistry { entries: Vec::new() }
    }

    /// Records device `handle` under `id`; `AlreadyRegistered` when the
    /// identity is taken.
    pub fn register(&mut self, id: DeviceId, handle: DeviceHandle) -> (r: Result<(), RegistryError>)
        ensures
            r is Err <==> registered_ids(old(self).entries@).contains(id),
            r is Err ==> r == Err::<(), RegistryError>(RegistryError::AlreadyRegistered) && final(self).entries@ == old(self).entries@,
            r is Ok ==> final(self).entries@ == old(self).entries@.push((id, handle)),
    {
        let mut i: usize = 0;
        while i < self.entries.len()
            invariant
                i <= self.entries@.len(),
                forall|j: int| 0 <= j < i ==> (#[trigger] self.entries@[j]).0 != id,
            decreases self.entries.len() - i,
        {
            if self.entries[i].0 == id {
                proof { assert(registered_ids(self.entries@)[i as int] == id); }
                return Err(RegistryError::AlreadyRegistered);
            }
            i = i + 1;
        }
        proof {
            if registered_ids(self.entries@).contains(id) {
                let k = choose|k: int| 0 <= k < registered_ids(self.entries@).len() && registered_ids(self.entries@)[k] == id;
                assert(self.entries@[k].0 == id);
            }
        }
        self.entries.push((id, handle));
        Ok(())
    }

    /// Where the device registered under `id` is.
    pub fn lookup(&self, id: DeviceId) -> (r: Option<DeviceHandle>)
        ensures
            r is None <==> !registered_ids(self.entries@).contains(id),
            r matches Some(h) ==> self.entries@.contains((id, h)),
            r == first_handle(self.entries@, id, 0),
    {
        let mut i: usize = 0;
        while i < self.entries.len()
            invariant
                i <= self.entries@.len(),
                forall|j: int| 0 <= j < i ==> (#[trigger] self.entries@[j]).0 != id,
                first_handle(self.entries@, id, 0) == first_handle(self.entries@, id, i as int),
            decreases self.entries.len() - i,
        {
            if self.entries[i].0 == id {
                let h = self.entries[i].1;
                proof {
                    assert(self.entries@[i as int] == (id, h));
                    assert(registered_ids(self.entries@)[i as int] == id);
                }
                return Some(h);
            }
            i = i + 1;
        }
        proof {
            if registered_ids(self.entries@).contains(id) {
                let k = choose|k: int| 0 <= k < registered_ids(self.entries@).len() && registered_ids(self.entries@)[k] == id;
                assert(self.entries@[k].0 == id);
            }
        }
        None
    }

    /// Forgets the device registered under `id`; `NotFound` when there is
    /// none.
    pub fn unregister(&mut self, id: DeviceId) -> (r: Result<(), RegistryError>)
        ensures
            r is Err <==> !registered_ids(old(self).entries@).contains(id),
            r is Err ==> r == Err::<(), RegistryError>(RegistryError::NotFound) && final(self).entries@ == old(self).entries@,
            r is Ok ==> exists|k: int| 0 <= k < old(self).entries@.len() && old(self).entries@[k].0 == id
                && final(self).entries@ == old(self).entries@.remove(k),
    {
        let mut i: usize = 0;
        while i < self.entries.len()
            invariant
                i <= self.entries@.len(),
                self.entries@ == old(self).entries@,
                forall|j: int| 0 <= j < i ==> (#[trigger] self.entries@[j]).0 != id,
            decreases self.entries.len() - i,
        {
            if self.entries[i].0 == id {
                proof { assert(registered_ids(self.entries@)[i as int] == id); }
                let _ = self.entries.remove(i);
                return Ok(());
            }
            i = i + 1;
        }
        proof {
            if registered_ids(self.entries@).contains(id) {
                let k = choose|k: int| 0 <= k < registered_ids(self.entries@).len() && registered_ids(self.entries@)[k] == id;
                assert(self.entries@[k].0 == id);
            }
        }
        Err(RegistryError::NotFound)
    }

    /// The registered identities, in registration order.
    pub fn list_devices(&self) -> (ids: Vec<DeviceId>)
        ensures
            ids@ == registered_ids(self.entries@),
    {
        let mut ids: Vec<DeviceId> = Vec::new();
        let mut i: usize = 0;
        while i < self.entries.len()
            invariant
                i <= self.entries@.len(),
                ids@ == registered_ids(self.entries@.subrange(0, i as int)),
            decreases self.entries.len() - i,
        {
            ids.push(self.entries[i].0);
            proof {
                assert(self.entries@.subrange(0, i + 1) =~= self.entries@.subrange(0, i as int).push(self.entries@[i as int]));
            }
            i = i + 1;
        }
        proof { assert(self.entries@.subrange(0, self.entries@.len() as int) =~= self.entries@); }
        ids
    }
}

} // verus!
